use gpam::cache::{Cache, EntitlementRow};
use gpam::gcp::Scope;
use gpam::gcp::grants::GrantState;
use gpam::poller::PollMode;
use gpam::tui::keymap::{KeyCode, KeyEvent};
use gpam::tui::request::{
    Field, Modal, RequestFlow, RequestResult, ResultState, StepOutcome, field_cursor, field_line,
    header, leaves_summary, limits_line, modal_area, result_lines, scope_line, summary_header,
    summary_lines, title, wrapped_cursor, wrapped_lines,
};
use gpam::tui::styled::{Area, Line, Tone};
use gpam::tui::widgets::TextInput;

fn ent(short: &str, justification_required: bool, max: Option<i64>) -> EntitlementRow {
    EntitlementRow {
        name: format!("projects/p/locations/global/entitlements/{short}"),
        scope_type: Scope::Project,
        scope_id: "p".into(),
        scope_display_name: Some("Prod".into()),
        short_name: short.into(),
        max_request_duration_secs: max,
        justification_required,
        approvers: vec![],
        roles: vec![],
        raw_json: "{}".into(),
        fetched_at: 0,
        last_used_at: None,
    }
}

fn key(code: KeyCode) -> KeyEvent {
    KeyEvent { code, ctrl: false }
}

fn type_in(modal: &mut Modal, s: &str) {
    for c in s.chars() {
        assert!(matches!(modal.handle_key(key(KeyCode::Char(c))), StepOutcome::Continue));
    }
}

fn with_duration(s: &str, max: Option<i64>) -> Modal {
    let mut modal = Modal::new(ent("e", false, max));
    modal.handle_key(key(KeyCode::Backspace));
    modal.handle_key(key(KeyCode::Backspace));
    type_in(&mut modal, s);
    modal
}

fn plain(line: &Line) -> String {
    line.spans.iter().map(|s| s.text.as_str()).collect()
}

#[test]
fn durations_are_checked() {
    assert_eq!(with_duration("30m", None).validate_duration(), Ok(1800));
    assert_eq!(with_duration("2h", Some(7200)).validate_duration(), Ok(7200));
    assert_eq!(with_duration("9h", Some(0)).validate_duration(), Ok(32400));
    assert_eq!(
        with_duration("x", None).validate_duration(),
        Err("invalid duration 'x'; try 1h, 30m, 5400s, 3600".to_string())
    );
    assert_eq!(
        with_duration("29m", None).validate_duration(),
        Err("below minimum 30m".to_string())
    );
    assert_eq!(
        with_duration("3h", Some(7200)).validate_duration(),
        Err("exceeds max 2h".to_string())
    );
}

#[test]
fn a_duration_alone_is_submitted() {
    let mut modal = Modal::new(ent("e", false, None));
    match modal.handle_key(key(KeyCode::Enter)) {
        StepOutcome::Submit { duration_secs, justification } => {
            assert_eq!(duration_secs, 3600);
            assert_eq!(justification, None);
        }
        other => panic!("got {other:?}"),
    }
}

#[test]
fn a_justification_is_asked_for() {
    let mut modal = Modal::new(ent("e", true, None));
    assert!(matches!(modal.handle_key(key(KeyCode::Enter)), StepOutcome::Continue));
    assert_eq!(modal.field, Field::Justification);
    type_in(&mut modal, "  ");
    assert!(matches!(modal.handle_key(key(KeyCode::Enter)), StepOutcome::Continue));
    assert_eq!(modal.error.as_deref(), Some("justification cannot be empty"));
    type_in(&mut modal, "on call");
    match modal.handle_key(key(KeyCode::Enter)) {
        StepOutcome::Submit { duration_secs, justification } => {
            assert_eq!(duration_secs, 3600);
            assert_eq!(justification.as_deref(), Some("  on call"));
        }
        other => panic!("got {other:?}"),
    }
}

#[test]
fn rejected_durations_stay() {
    let mut modal = with_duration("5", None);
    assert!(matches!(modal.handle_key(key(KeyCode::Enter)), StepOutcome::Continue));
    assert_eq!(modal.error.as_deref(), Some("below minimum 30m"));
    assert_eq!(modal.duration.as_str(), "5");
    modal.handle_key(key(KeyCode::Tab));
    assert_eq!(modal.field, Field::Justification);
    assert!(matches!(modal.handle_key(key(KeyCode::Enter)), StepOutcome::Continue));
    modal.handle_key(key(KeyCode::Tab));
    assert_eq!(modal.field, Field::Duration);
    modal.handle_key(key(KeyCode::Home));
    type_in(&mut modal, "3");
    modal.handle_key(key(KeyCode::End));
    type_in(&mut modal, "m");
    assert!(matches!(
        modal.handle_key(key(KeyCode::Enter)),
        StepOutcome::Submit { duration_secs: 2100, justification: None }
    ));
    assert_eq!(modal.error, None);
}

#[test]
fn ways_out_of_the_prompts() {
    let mut modal = Modal::new(ent("e", true, None));
    assert!(matches!(modal.handle_key(key(KeyCode::Esc)), StepOutcome::Skip));
    let ctrl_c = KeyEvent { code: KeyCode::Char('c'), ctrl: true };
    assert!(matches!(modal.handle_key(ctrl_c), StepOutcome::Abort));
    assert!(leaves_summary(ctrl_c));
    for code in [KeyCode::Enter, KeyCode::Esc, KeyCode::Char(' '), KeyCode::Char('q')] {
        assert!(leaves_summary(key(code)));
    }
    assert!(!leaves_summary(key(KeyCode::Char('c'))));
    assert!(!leaves_summary(key(KeyCode::Tab)));
}

#[test]
fn each_entitlement_gets_one_result() {
    let mut cache = Cache::new();
    cache.upsert_entitlement(&ent("a", true, None));
    let mut flow = RequestFlow::new(vec![
        ent("a", true, None),
        ent("b", true, None),
        ent("c", true, None),
    ]);
    assert_eq!(flow.progress(), (0, 3));
    assert_eq!(flow.current().unwrap().short_name, "a");
    let name = "projects/p/locations/global/entitlements/a/grants/g1";
    let poll = flow.created(&mut cache, name.into(), 3600, Some("why".into()), 500);
    assert_eq!(poll.grant_name, name);
    assert_eq!(poll.requested_duration_secs, 3600);
    assert_eq!(poll.mode, PollMode::Track);
    assert_eq!(poll.last_state, GrantState::Requested);
    assert_eq!(cache.list_entitlements().unwrap()[0].last_used_at, Some(500));
    let grants = cache.list_tracked_grants(500).unwrap();
    assert_eq!(grants[0].name, name);
    assert_eq!(grants[0].short_id, "g1");
    assert_eq!(grants[0].state, "Requested");
    assert_eq!(grants[0].entitlement_short_name, "a");
    assert_eq!(grants[0].justification.as_deref(), Some("why"));
    assert_eq!(grants[0].created_at, 500);
    assert!(!flow.needs_summary());
    assert_eq!(flow.progress(), (1, 3));
    flow.skipped();
    assert_eq!(flow.current().unwrap().short_name, "c");
    flow.failed("denied".into());
    assert!(flow.current().is_none());
    assert!(flow.needs_summary());
    assert_eq!(flow.grant_names(), vec![name]);
    assert_eq!(summary_header(flow.results()), " request summary -- 1 ok, 1 error, 1 skipped ");
    let lines: Vec<String> = result_lines(flow.results()).iter().map(plain).collect();
    assert_eq!(
        lines,
        vec![format!("[ok]   a  ->  {name}"), "[skip] b  (skipped)".into(), "[err]  c  denied".into()]
    );
    let lines: Vec<String> = summary_lines(flow.results()).iter().map(plain).collect();
    assert_eq!(
        lines,
        vec![
            format!("[ok]   a  ->  {name}"),
            "[skip] b  (skipped)".into(),
            "[err]  c".into(),
            "       denied".into(),
        ]
    );
}

#[test]
fn result_tones() {
    let results = vec![
        RequestResult { short_name: "a".into(), state: ResultState::Created("n".into()) },
        RequestResult { short_name: "b".into(), state: ResultState::Failed("m".into()) },
        RequestResult { short_name: "c".into(), state: ResultState::Skipped },
    ];
    let tones: Vec<Tone> = result_lines(&results).iter().map(|l| l.spans[0].tone).collect();
    assert_eq!(tones, vec![Tone::GreenBold, Tone::RedBold, Tone::Dim]);
    assert_eq!(summary_lines(&results)[2].spans[1].tone, Tone::Red);
}

#[test]
fn prompt_texts() {
    let e = ent("e", true, Some(7200));
    assert_eq!(header(0, 2), " requesting access -- 1 of 2 ");
    assert_eq!(title(&e), " e ");
    assert_eq!(scope_line(&e), "scope: projects/p (Prod)");
    assert_eq!(limits_line(&e), "min 30m | max 2h");
    let mut bare = ent("e", true, None);
    bare.scope_display_name = Some("".into());
    assert_eq!(scope_line(&bare), "scope: projects/p");
    assert_eq!(limits_line(&bare), "min 30m");
    let input = TextInput::with_text("1h");
    let line = field_line(Field::Duration, &input, true);
    assert_eq!(plain(&line), "> duration: 1h");
    assert_eq!(line.spans[0].tone, Tone::YellowBold);
    assert_eq!(plain(&field_line(Field::Justification, &input, false)), "  justify : 1h");
    assert_eq!(field_cursor(&input), 14);
}

#[test]
fn long_texts_wrap_by_characters() {
    let mut input = TextInput::with_text("abcdefg");
    let texts = |input: &TextInput| -> Vec<String> {
        wrapped_lines(Field::Justification, input, true, 15).iter().map(plain).collect()
    };
    assert_eq!(texts(&input), vec!["> justify : abc", "            def", "            g"]);
    assert_eq!(wrapped_cursor(&input, 15, 5), (2, 13));
    assert_eq!(wrapped_cursor(&input, 15, 2), (1, 13));
    assert_eq!(wrapped_cursor(&input, 15, 0), (0, 13));
    input.move_home();
    assert_eq!(wrapped_cursor(&input, 15, 5), (0, 12));
    input.clear();
    assert_eq!(texts(&input), vec!["> justify : "]);
    // A width without room still shows one character a line.
    assert_eq!(
        wrapped_lines(Field::Justification, &TextInput::with_text("ab"), false, 3).len(),
        2
    );
}

#[test]
fn the_prompts_are_centered() {
    let area = Area { x: 0, y: 1, width: 100, height: 40 };
    assert_eq!(modal_area(area, 70), Area { x: 15, y: 13, width: 70, height: 16 });
    let low = Area { x: 0, y: 1, width: 100, height: 10 };
    assert_eq!(modal_area(low, 70), Area { x: 15, y: 2, width: 70, height: 8 });
}
