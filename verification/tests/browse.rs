use gpam::cache::{Cache, EntitlementRow, GrantRow, ProjectRow, meta_keys};
use gpam::fuzzy::MAX_NEEDLE;
use gpam::gcp::Scope;
use gpam::logs::{Level, LogState};
use gpam::refresh::{Decision, RefreshEvent, RefreshOptions};
use gpam::tui::browse::view::{
    HELP_TITLE, LOGS_TITLE, STATUS_KEYS, help_area, key_lines, list_keys, log_lines, preview_text,
    raw_preview, scope_label, search_keys, strip_line,
};
use gpam::tui::browse::{BrowseExit, BrowseScreen, BrowseStep};
use gpam::tui::keymap::{Action, Focus, KeyCode, KeyEvent, SearchMove};
use gpam::tui::styled::{Area, Line, Tone};
use std::time::{Duration, SystemTime};

fn ent(scope: Scope, id: &str, short: &str, approvers: &[&str]) -> EntitlementRow {
    EntitlementRow {
        name: format!("{}/{id}/locations/global/entitlements/{short}", scope.plural()),
        scope_type: scope,
        scope_id: id.into(),
        scope_display_name: None,
        short_name: short.into(),
        max_request_duration_secs: Some(7200),
        justification_required: true,
        approvers: approvers.iter().map(|s| s.to_string()).collect(),
        roles: vec!["roles/viewer".into()],
        raw_json: "{\"a\":[1]}".into(),
        fetched_at: 0,
        last_used_at: None,
    }
}

fn grant(short: &str, state: &str, created_at: i64, expires_at: Option<i64>) -> GrantRow {
    GrantRow {
        name: format!("e/grants/{short}"),
        entitlement_name: "e".into(),
        entitlement_short_name: short.into(),
        scope_type: Scope::Project,
        scope_id: "p".into(),
        scope_display_name: None,
        short_id: short.into(),
        state: state.into(),
        requested_duration_secs: 3600,
        justification: None,
        created_at,
        activated_at: None,
        expires_at,
        last_polled_at: None,
        raw_json: None,
    }
}

/// Three entitlements, listed as folder f, organization o, project p.
fn cached() -> Cache {
    let mut cache = Cache::new();
    cache.upsert_entitlement(&ent(Scope::Project, "p", "alpha", &[]));
    cache.upsert_entitlement(&ent(Scope::Folder, "f", "beta", &["user:x"]));
    cache.upsert_entitlement(&ent(Scope::Organization, "o", "gamma", &[]));
    cache.upsert_project(&ProjectRow {
        project_id: "p".into(),
        display_name: Some("Prod".into()),
        state: None,
        fetched_at: 0,
    });
    cache
}

fn screen() -> BrowseScreen {
    BrowseScreen::new("me".into(), &cached(), RefreshOptions::default(), 10_000)
}

fn key(code: KeyCode) -> KeyEvent {
    KeyEvent { code, ctrl: false }
}

fn press(s: &mut BrowseScreen, keys: &str) {
    for c in keys.chars() {
        let k = key(KeyCode::Char(c));
        assert!(s.accepts(k));
        assert!(matches!(s.handle_key(k), BrowseStep::Stay));
    }
}

fn plain(line: &Line) -> String {
    line.spans.iter().map(|s| s.text.as_str()).collect()
}

fn shown(s: &BrowseScreen) -> Vec<String> {
    s.list_rows().iter().map(plain).collect()
}

fn requested(step: BrowseStep) -> Vec<String> {
    match step {
        BrowseStep::Exit(BrowseExit::Request(rows)) => {
            rows.into_iter().map(|e| e.short_name).collect()
        }
        other => panic!("got {other:?}"),
    }
}

#[test]
fn a_new_screen_lists_everything() {
    let s = screen();
    assert_eq!(
        shown(&s),
        vec![
            "[ ] [appr] beta  fldr:f",
            "[ ] [auto] gamma  org:o",
            "[ ] [auto] alpha  proj:Prod",
        ]
    );
    assert_eq!(s.search_title(), " search (3 of 3) ");
    assert_eq!(s.list_title(), " entitlements* ");
    assert_eq!(s.highlighted(), Some(0));
    assert_eq!(s.focus(), Focus::List);
    assert_eq!(s.query(), "");
    assert_eq!(s.query_cursor(), 1);
    assert!(!s.shows_help() && !s.shows_logs());
    assert_eq!(s.refresh_options(), RefreshOptions::default());
    assert_eq!(s.status_line(10_000), "me | 3 entitlements | scope:all | cache age never | ");
    let skipped = BrowseScreen::new(
        "me".into(),
        &cached(),
        RefreshOptions::skipping(true, false, false),
        10_000,
    );
    assert_eq!(skipped.list_rows().len(), 2);
}

#[test]
fn rows_have_tones() {
    let mut s = screen();
    press(&mut s, " ");
    let rows = s.list_rows();
    assert_eq!(plain(&rows[0]), "[*] [appr] beta  fldr:f");
    assert_eq!(rows[0].spans[0].tone, Tone::GreenBold);
    assert_eq!(rows[0].spans[2].tone, Tone::Yellow);
    assert_eq!(rows[1].spans[0].tone, Tone::Dim);
    assert_eq!(rows[1].spans[2].tone, Tone::Cyan);
    assert_eq!(rows[1].spans[6].tone, Tone::Dim);
    assert_eq!(s.highlighted(), Some(1));
}

#[test]
fn the_cursor_stays_in_the_list() {
    let mut s = screen();
    press(&mut s, "k");
    assert_eq!(s.highlighted(), Some(0));
    press(&mut s, "jjjj");
    assert_eq!(s.highlighted(), Some(2));
    s.apply(Action::MoveUp(10));
    assert_eq!(s.highlighted(), Some(0));
    press(&mut s, "G");
    assert_eq!(s.highlighted(), Some(2));
    press(&mut s, "g");
    assert_eq!(s.highlighted(), Some(0));
    s.apply(Action::MoveDown(usize::MAX));
    assert_eq!(s.highlighted(), Some(2));
}

#[test]
fn searching_narrows_the_list() {
    let mut s = screen();
    press(&mut s, "G/alp");
    assert_eq!(s.focus(), Focus::Search);
    assert_eq!(s.search_title(), " search* (1 of 3) ");
    assert_eq!(s.list_title(), " entitlements ");
    assert_eq!(shown(&s), vec!["[ ] [auto] alpha  proj:Prod"]);
    assert_eq!(s.highlighted(), Some(0));
    assert_eq!(s.query_cursor(), 4);
    s.apply(Action::SearchCursor(SearchMove::Home));
    assert_eq!(s.query_cursor(), 1);
    s.apply(Action::SearchCursor(SearchMove::Right));
    s.apply(Action::SearchBackspace);
    assert_eq!(s.query(), "lp");
    s.apply(Action::SearchCursor(SearchMove::End));
    s.apply(Action::SearchCursor(SearchMove::Left));
    assert_eq!(s.query_cursor(), 2);
    s.apply(Action::SearchCursor(SearchMove::End));
    s.apply(Action::SearchDeleteWordBack);
    assert_eq!(s.query(), "");
    assert_eq!(s.list_rows().len(), 3);
    press(&mut s, "zzz");
    assert!(s.list_rows().is_empty());
    assert_eq!(s.highlighted(), None);
    assert_eq!(s.preview(), "no entitlement selected");
    assert!(matches!(s.apply(Action::Submit), BrowseStep::Stay));
    s.apply(Action::MoveDown(1));
    assert_eq!(s.focus(), Focus::List);
}

#[test]
fn approvers_and_scopes_are_searched() {
    let mut s = screen();
    press(&mut s, "/user:x");
    assert_eq!(shown(&s), vec!["[ ] [appr] beta  fldr:f"]);
    let mut s = screen();
    press(&mut s, "/organization");
    assert_eq!(shown(&s), vec!["[ ] [auto] gamma  org:o"]);
}

#[test]
fn escape_takes_one_layer_at_a_time() {
    let mut s = screen();
    press(&mut s, " m/b");
    s.handle_key(key(KeyCode::Esc));
    assert_eq!(s.focus(), Focus::List);
    assert_eq!(s.list_title(), " marked* ");
    assert!(matches!(s.handle_key(key(KeyCode::Esc)), BrowseStep::Stay));
    assert_eq!(s.list_title(), " entitlements* ");
    assert_eq!(s.query(), "b");
    assert!(matches!(s.handle_key(key(KeyCode::Esc)), BrowseStep::Stay));
    assert_eq!(s.query(), "");
    assert_eq!(shown(&s)[0], "[*] [appr] beta  fldr:f");
    assert!(matches!(s.handle_key(key(KeyCode::Esc)), BrowseStep::Stay));
    assert_eq!(shown(&s)[0], "[ ] [appr] beta  fldr:f");
    assert!(matches!(
        s.handle_key(key(KeyCode::Esc)),
        BrowseStep::Exit(BrowseExit::Quit)
    ));
}

#[test]
fn the_selection_is_requested_in_order() {
    let mut s = screen();
    press(&mut s, "G ");
    press(&mut s, "g ");
    assert_eq!(requested(s.handle_key(key(KeyCode::Enter))), vec!["beta", "alpha"]);
    // The next request starts from the row at the cursor.
    assert_eq!(requested(s.handle_key(key(KeyCode::Enter))), vec!["gamma"]);
    press(&mut s, "g  ");
    let marks: Vec<bool> = shown(&s).iter().map(|r| r.starts_with("[*]")).collect();
    assert_eq!(marks, vec![true, true, false]);
}

#[test]
fn the_marked_view_follows_the_selection() {
    let mut s = screen();
    press(&mut s, "  m");
    assert_eq!(s.list_rows().len(), 2);
    assert!(s.status_line(0).ends_with(" | view: marked (2)"));
    press(&mut s, "g ");
    assert_eq!(shown(&s), vec!["[*] [auto] gamma  org:o"]);
    assert_eq!(s.highlighted(), Some(0));
    press(&mut s, "m");
    assert_eq!(s.list_rows().len(), 3);
    assert!(s.status_line(0).ends_with(" | view: all"));
}

#[test]
fn the_scope_filter_cycles() {
    let mut s = screen();
    for (scope, status, rows) in [
        ("project", "scope filter: project", vec!["[ ] [auto] alpha  proj:Prod"]),
        ("folder", "scope filter: folder", vec!["[ ] [appr] beta  fldr:f"]),
        ("organization", "scope filter: organization", vec!["[ ] [auto] gamma  org:o"]),
    ] {
        press(&mut s, "f");
        assert_eq!(shown(&s), rows);
        assert_eq!(
            s.status_line(0),
            format!("me | 3 entitlements | scope:{scope} | cache age never | {status}")
        );
    }
    press(&mut s, "f");
    assert_eq!(s.list_rows().len(), 3);
    assert!(s.status_line(0).ends_with("scope filter: all"));
}

#[test]
fn help_and_logs_close_with_any_key() {
    let mut s = screen();
    press(&mut s, "?");
    assert!(s.shows_help());
    press(&mut s, "q");
    assert!(!s.shows_help());
    assert!(matches!(s.handle_key(key(KeyCode::Char('L'))), BrowseStep::ReadLogs));
    assert!(s.shows_logs());
    press(&mut s, "q");
    assert!(!s.shows_logs());
    press(&mut s, "?");
    assert!(matches!(
        s.handle_key(KeyEvent { code: KeyCode::Char('c'), ctrl: true }),
        BrowseStep::Exit(BrowseExit::Quit)
    ));
}

#[test]
fn letters_that_leave_the_list() {
    let mut s = screen();
    assert!(matches!(
        s.handle_key(key(KeyCode::Char('A'))),
        BrowseStep::Exit(BrowseExit::OpenApprovalQueue)
    ));
    assert!(matches!(
        s.handle_key(key(KeyCode::Char('q'))),
        BrowseStep::Exit(BrowseExit::Quit)
    ));
    assert!(matches!(s.handle_key(key(KeyCode::Other)), BrowseStep::Stay));
}

#[test]
fn one_refresh_at_a_time() {
    let mut s = screen();
    assert!(matches!(s.handle_key(key(KeyCode::Char('R'))), BrowseStep::StartRefresh));
    assert_eq!(
        s.status_line(0),
        "[refreshing] me | 3 entitlements | scope:all | cache age never | refreshing..."
    );
    assert!(matches!(s.start_refresh(), BrowseStep::Stay));
    let cache = cached();
    s.handle_refresh_event(RefreshEvent::Started, &cache, 90);
    s.handle_refresh_event(
        RefreshEvent::EntitlementUpserted(ent(Scope::Project, "q", "delta", &[])),
        &cache,
        91,
    );
    assert_eq!(shown(&s)[3], "[ ] [auto] delta  proj:q");
    let mut changed = ent(Scope::Project, "p", "alpha", &["user:y"]);
    changed.scope_display_name = Some("".into());
    s.handle_refresh_event(RefreshEvent::EntitlementUpserted(changed), &cache, 92);
    assert_eq!(shown(&s)[2], "[ ] [appr] alpha  proj:p");
    s.handle_refresh_event(RefreshEvent::Finished { total: 4, error: None }, &cache, 100);
    assert_eq!(
        s.status_line(160),
        "me | 3 entitlements | scope:all | cache age 1m | refresh complete: 4 entitlements"
    );
    assert!(matches!(s.start_refresh(), BrowseStep::StartRefresh));
    s.handle_refresh_event(
        RefreshEvent::Finished { total: 0, error: Some("boom".into()) },
        &Cache::new(),
        100,
    );
    assert_eq!(
        s.status_line(99),
        "me | 0 entitlements | scope:all | cache age now | refresh failed: boom"
    );
}

#[test]
fn skipped_scopes_stay_hidden() {
    let options = RefreshOptions::skipping(false, true, false);
    let mut s = BrowseScreen::new("me".into(), &cached(), options, 10_000);
    assert_eq!(s.list_rows().len(), 2);
    let cache = cached();
    s.handle_refresh_event(
        RefreshEvent::EntitlementUpserted(ent(Scope::Folder, "g", "new", &[])),
        &cache,
        0,
    );
    assert_eq!(s.list_rows().len(), 2);
    s.handle_refresh_event(RefreshEvent::Finished { total: 3, error: None }, &cache, 0);
    assert_eq!(s.list_rows().len(), 2);
}

#[test]
fn scorable_entitlements_are_taken_in() {
    let mut s = screen();
    assert_eq!(s.list_rows().len(), 3);
    let found = ent(Scope::Project, "q", "delta", &[]);
    assert!(s.take_refresh_event(RefreshEvent::Started, &Cache::new(), 90));
    assert!(s.take_refresh_event(RefreshEvent::EntitlementUpserted(found), &Cache::new(), 91));
    assert_eq!(s.list_rows().len(), 4);
    let finished = RefreshEvent::Finished { total: 3, error: None };
    assert!(s.take_refresh_event(finished, &cached(), 92));
    assert_eq!(s.list_rows().len(), 3);

    // Without a query every entitlement is taken in.
    let odd = || ent(Scope::Project, "q", "\u{17f}s\u{e4}", &[]);
    let mut cache = cached();
    cache.upsert_entitlement(&odd());
    assert!(s.take_refresh_event(RefreshEvent::EntitlementUpserted(odd()), &cache, 93));
    assert_eq!(s.list_rows().len(), 4);
    press(&mut s, "/s");
    assert!(!s.accepts(key(KeyCode::Char('\u{e4}'))));
    assert!(s.accepts(key(KeyCode::Char('a'))));

    // With one, what cannot be scored against it is refused.
    let mut s = screen();
    press(&mut s, "/s\u{e4}");
    assert!(!s.take_refresh_event(RefreshEvent::EntitlementUpserted(odd()), &cache, 94));
    let finished = RefreshEvent::Finished { total: 4, error: None };
    assert!(!s.take_refresh_event(finished, &cache, 95));
    assert_eq!(s.search_title(), " search* (0 of 3) ");
    s.handle_key(key(KeyCode::Backspace));
    s.handle_key(key(KeyCode::Backspace));
    let finished = RefreshEvent::Finished { total: 4, error: None };
    assert!(s.take_refresh_event(finished, &cache, 96));
    assert_eq!(s.list_rows().len(), 4);

    let mut s = screen();
    press(&mut s, "/\u{3b1}");
    let sigma = ent(Scope::Project, "q", "\u{3c2}\u{3b1}", &[]);
    assert!(s.take_refresh_event(RefreshEvent::EntitlementUpserted(sigma), &cache, 97));
    assert_eq!(s.search_title(), " search* (1 of 4) ");
}

#[test]
fn a_cache_that_is_too_old_is_waited_for() {
    let mut s = screen();
    assert!(matches!(s.begin(Decision::Fresh), BrowseStep::Stay));
    assert!(s.shows_list());
    assert!(matches!(s.begin(Decision::Hard), BrowseStep::StartRefresh));
    assert!(!s.shows_list());
    assert!(matches!(s.handle_key(key(KeyCode::Char('q'))), BrowseStep::Stay));
    assert!(matches!(s.begin(Decision::Hard), BrowseStep::Stay));
    let cache = cached();
    s.handle_refresh_event(RefreshEvent::Started, &cache, 1);
    s.handle_refresh_event(
        RefreshEvent::EntitlementUpserted(ent(Scope::Project, "q", "delta", &[])),
        &cache,
        2,
    );
    assert!(!s.shows_list());
    assert!(matches!(
        s.handle_key(KeyEvent { code: KeyCode::Char('c'), ctrl: true }),
        BrowseStep::Exit(BrowseExit::Quit)
    ));
    let failed = RefreshEvent::Finished { total: 0, error: Some("boom".into()) };
    s.handle_refresh_event(failed, &cache, 3);
    assert!(s.shows_list());
    assert!(matches!(s.begin(Decision::Soft), BrowseStep::StartRefresh));
    assert!(s.shows_list());
}

#[test]
fn the_status_bar_tells_of_approvals_and_warnings() {
    let s = screen();
    let line = s.status_line(0);
    let mut logs = LogState::new("/tmp/gpam.log".into());
    assert_eq!(s.status_bar(0, 0, &logs), line);
    let at = SystemTime::now();
    logs.record(Level::Warn, "first".into(), at);
    logs.record(Level::Error, "second".into(), at);
    assert_eq!(
        s.status_bar(0, 3, &logs),
        format!("{line} | 3 pending approvals (A) | ERROR: second (2 unread, L)")
    );
    let lines: Vec<String> =
        log_lines(&logs, &(at + Duration::from_secs(61))).iter().map(plain).collect();
    assert_eq!(lines, vec!["[ERROR] 1m ago", "second", "", "/tmp/gpam.log"]);
    logs.clear_unread();
    assert_eq!(s.status_bar(0, 0, &logs), line);
    let quiet = LogState::new("/tmp/gpam.log".into());
    let lines: Vec<String> = log_lines(&quiet, &at).iter().map(plain).collect();
    assert_eq!(lines, vec!["no warnings", "", "/tmp/gpam.log"]);
    assert_eq!(LOGS_TITLE, " logs ");
}

#[test]
fn finished_grants_show_their_outcome() {
    let mut g = grant("my-entitlement", "Denied", 0, None);
    g.scope_display_name = Some("project-foo".into());
    let line = strip_line(&g, 10);
    assert_eq!(
        plain(&line),
        format!("[err] {:<20}  {:<30}  Denied", "my-entitlement", "proj:project-foo")
    );
    assert_eq!(line.spans[0].tone, Tone::RedBold);
    g.state = "Active".into();
    g.expires_at = Some(10 + 1380);
    assert_eq!(
        plain(&strip_line(&g, 10)),
        format!("[ok]  {:<20}  {:<30}  exp: 23m", "my-entitlement", "proj:project-foo")
    );
}

#[test]
fn scanned_time_is_shown() {
    let mut cache = cached();
    cache.set_meta_timestamp(meta_keys::ENTITLEMENTS_SCANNED_AT, 9_000);
    let s = BrowseScreen::new("me".into(), &cache, RefreshOptions::default(), 10_000);
    assert_eq!(s.status_line(10_000), "me | 3 entitlements | scope:all | cache age 16m | ");
}

#[test]
fn long_queries_against_a_long_text() {
    let mut cache = cached();
    let approver = "a".repeat(MAX_NEEDLE);
    cache.upsert_entitlement(&ent(Scope::Project, "q", "long", &[&approver]));
    let mut s = BrowseScreen::new("me".into(), &cache, RefreshOptions::default(), 10_000);
    press(&mut s, "/");
    press(&mut s, &approver);
    assert_eq!(shown(&s).len(), 1);
    assert!(!s.accepts(key(KeyCode::Char('a'))));
    // Another word is another matter, and the words cannot be put together.
    press(&mut s, " aa");
    assert_eq!(shown(&s).len(), 1);
    s.handle_key(key(KeyCode::Left));
    s.handle_key(key(KeyCode::Left));
    assert!(!s.accepts(key(KeyCode::Backspace)));
    assert!(s.accepts(key(KeyCode::Char('\\'))));
    s.handle_key(key(KeyCode::Left));
    assert!(!s.accepts(key(KeyCode::Char('\\'))));
    s.handle_key(key(KeyCode::Right));
    s.handle_key(key(KeyCode::Right));
    assert!(s.accepts(key(KeyCode::Backspace)));
    s.handle_key(key(KeyCode::Backspace));
    assert_eq!(shown(&s).len(), 1);

    // Against short texts there is no limit.
    let mut s = screen();
    press(&mut s, "/");
    press(&mut s, &approver);
    press(&mut s, "aaaa");
    assert_eq!(shown(&s), Vec::<String>::new());
}

#[test]
fn the_preview_shows_the_row_at_the_cursor() {
    let mut s = screen();
    assert_eq!(s.preview_title(), " preview (J for raw) ");
    assert_eq!(
        s.preview(),
        "name:    beta\nscope:   folders/f\nmax:     2h\njustify: required\napprovers:\n  - user:x\n\
         roles:\n  - roles/viewer\n"
    );
    press(&mut s, "J");
    assert_eq!(s.preview_title(), " preview (raw, J to collapse) ");
    assert_eq!(s.preview(), "{\n  \"a\": [\n    1\n  ]\n}");
    let mut e = ent(Scope::Project, "p", "alpha", &[]);
    e.roles.clear();
    e.max_request_duration_secs = None;
    e.justification_required = false;
    e.raw_json = "no json".into();
    assert_eq!(
        preview_text(&e, false),
        "name:    alpha\nscope:   projects/p\njustify: optional\napproval: auto\n\
         roles:    (none listed)\n"
    );
    assert_eq!(preview_text(&e, true), "no json");
    assert_eq!(raw_preview(&e, Some("laid out".into())), "laid out");
    assert_eq!(raw_preview(&e, None), "no json");
}

#[test]
fn the_strip_shows_live_grants() {
    let mut cache = cached();
    let mut s = screen();
    assert_eq!(s.strip_height(), 0);
    assert!(s.strip_lines(0).is_empty());
    cache.upsert_grant(&grant("done", "Denied", 10_000, Some(10_000)));
    cache.upsert_grant(&grant("live", "Active", 10_001, Some(13_600)));
    cache.upsert_grant(&grant("wait", "Requested", 10_002, None));
    s.reload_tracked_grants(&cache, 10_010);
    assert_eq!(s.strip_height(), 4);
    assert_eq!(s.strip_title(), " grants (2) ");
    let lines = s.strip_lines(10_010);
    assert_eq!(
        plain(&lines[0]),
        format!("[..]  {:<20}  {:<30}  wait 8s", "wait", "proj:Prod")
    );
    assert_eq!(
        plain(&lines[1]),
        format!("[ok]  {:<20}  {:<30}  exp: 59m", "live", "proj:Prod")
    );
    assert_eq!(lines[0].spans[0].tone, Tone::YellowBold);
    assert_eq!(lines[1].spans[0].tone, Tone::GreenBold);
    for i in 0..5 {
        cache.upsert_grant(&grant(&format!("more{i}"), "Scheduled", 10_010 + i, None));
    }
    s.reload_tracked_grants(&cache, 10_020);
    assert_eq!(s.strip_height(), 7);
    assert_eq!(s.strip_title(), " grants (7) ");
    let lines = s.strip_lines(10_020);
    assert_eq!(lines.len(), 5);
    assert_eq!(plain(&lines[4]), "  ... +2 more not shown");
    s.report_grant_error("e/grants/g9", "gone");
    assert!(s.status_line(0).ends_with(" | grant g9: gone"));
}

#[test]
fn strip_lines_are_cut() {
    let mut g = grant("a-very-long-entitlement-name", "Active", 0, Some(10));
    g.scope_display_name = Some("a scope with a name of more than thirty letters".into());
    assert_eq!(
        plain(&strip_line(&g, 10)),
        "[ok]  a-very-long-entitle~  proj:a scope with a name of m~  expired"
    );
    g.expires_at = None;
    assert!(plain(&strip_line(&g, 10)).ends_with("~  "));
    assert_eq!(scope_label(Scope::Folder, "7", &Some("".into())), "fldr:7");
    assert_eq!(scope_label(Scope::Folder, "7", &Some("Seven".into())), "fldr:Seven");
}

#[test]
fn help_lists_the_keys() {
    assert_eq!(list_keys().len(), 14);
    assert_eq!(search_keys().len(), 7);
    let lines = key_lines(&list_keys());
    assert_eq!(plain(&lines[0]), "j / down / ^n move down");
    assert_eq!(plain(&lines[4]), "space         toggle select");
    assert_eq!(lines[0].spans[0].tone, Tone::Cyan);
    assert_eq!(lines[0].spans[1].tone, Tone::Dim);
    assert_eq!(STATUS_KEYS, "? help");
    assert_eq!(HELP_TITLE, " help \u{2014} press any key to close ");
    let area = Area { x: 0, y: 0, width: 120, height: 40 };
    assert_eq!(help_area(area), Area { x: 21, y: 11, width: 77, height: 18 });
    let small = Area { x: 1, y: 2, width: 60, height: 10 };
    assert_eq!(help_area(small), Area { x: 3, y: 3, width: 56, height: 8 });
    let narrow = Area { x: 0, y: 0, width: 30, height: 1 };
    assert_eq!(help_area(narrow), Area { x: 0, y: 0, width: 40, height: 0 });
}

#[test]
fn a_found_entitlement_is_stored_once() {
    let mut s = screen();
    let cache = cached();
    let found = || RefreshEvent::EntitlementUpserted(ent(Scope::Project, "q", "delta", &[]));
    assert!(s.take_refresh_event(found(), &cache, 1));
    let once = shown(&s);
    assert_eq!(once.len(), 4);
    assert!(s.take_refresh_event(found(), &cache, 2));
    assert_eq!(shown(&s), once);
}

#[test]
fn the_cursor_stays_in_a_list_that_shrinks() {
    let mut s = screen();
    press(&mut s, "G/beta");
    assert_eq!(shown(&s).len(), 1);
    s.handle_key(key(KeyCode::Enter));
    assert_eq!(requested(s.handle_key(key(KeyCode::Enter))), vec!["beta"]);
}
