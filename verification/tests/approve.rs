use gpam::gcp::Scope;
use gpam::gcp::grants::{GrantDetails, GrantState, RoleBindingView};
use gpam::tui::approve::{
    ApproveOutcome, CHOICES, Decision, HEADER, KeyOutcome, Modal, Step, StepResult, confirm_lines,
    footer, modal_area, reason_cursor, result_lines, title,
};
use gpam::tui::keymap::{KeyCode, KeyEvent};
use gpam::tui::styled::{Area, Line, Tone};
use gpam::tui::widgets::TextInput;

fn details(state: GrantState) -> GrantDetails {
    GrantDetails {
        name: "projects/p/locations/global/entitlements/e/grants/g".into(),
        state,
        requester: "me@example.com".into(),
        requested_duration_secs: 3600,
        justification: None,
        role_bindings: vec![
            RoleBindingView { role: "roles/a".into(), condition: None },
            RoleBindingView { role: "roles/b".into(), condition: Some("c".into()) },
        ],
        scope_type: Scope::Project,
        scope_id: "p".into(),
        entitlement_short_name: "e".into(),
    }
}

fn key(code: KeyCode) -> KeyEvent {
    KeyEvent { code, ctrl: false }
}

fn open() -> Modal {
    Modal::open(Ok(details(GrantState::ApprovalAwaited)))
}

fn plain(line: &Line) -> String {
    line.spans.iter().map(|s| s.text.as_str()).collect()
}

fn stay(modal: &mut Modal, code: KeyCode) {
    assert!(matches!(modal.handle_key(key(code)), KeyOutcome::Stay));
}

#[test]
fn finished_grants_cannot_be_decided() {
    let mut modal = Modal::open(Ok(details(GrantState::Denied)));
    assert!(matches!(modal.step, Step::Result(StepResult::AlreadyHandled)));
    stay(&mut modal, KeyCode::Char('a'));
    assert!(matches!(
        modal.handle_key(key(KeyCode::Enter)),
        KeyOutcome::Close(ApproveOutcome::AlreadyHandled)
    ));
    let texts: Vec<String> = result_lines(&modal).iter().map(plain).collect();
    assert_eq!(
        texts,
        vec![
            "[already handled]  ",
            "grant e was already approved or denied by someone else.",
            "",
            "press enter / esc / q to dismiss",
        ]
    );
}

#[test]
fn failed_fetches_are_shown() {
    let mut modal = Modal::open(Err("boom".into()));
    assert_eq!(title(&modal), " result ");
    let texts: Vec<String> = result_lines(&modal).iter().map(plain).collect();
    assert_eq!(texts[0], "[err]  ");
    assert_eq!(texts[1], "fetch failed: boom");
    assert!(matches!(
        modal.handle_key(key(KeyCode::Char(' '))),
        KeyOutcome::Close(ApproveOutcome::Failed)
    ));
}

#[test]
fn decisions_are_confirmed_with_a_reason() {
    for (letter, decision, outcome, text) in [
        ('a', Decision::Approve, ApproveOutcome::Approved, "[approve]  grant e approved."),
        ('D', Decision::Deny, ApproveOutcome::Denied, "[deny]  grant e denyd."),
    ] {
        let mut modal = open();
        stay(&mut modal, KeyCode::Char(letter));
        for c in " ok ".chars() {
            stay(&mut modal, KeyCode::Char(c));
        }
        match modal.handle_key(key(KeyCode::Enter)) {
            KeyOutcome::Submit { decision: d, name, reason } => {
                assert_eq!(d, decision);
                assert_eq!(name, "projects/p/locations/global/entitlements/e/grants/g");
                assert_eq!(reason.as_deref(), Some("ok"));
            }
            other => panic!("got {other:?}"),
        }
        modal.settle(decision, None, None);
        assert_eq!(plain(&result_lines(&modal)[0]), text);
        assert_eq!(result_lines(&modal)[0].spans[0].tone, Tone::GreenBold);
        match modal.handle_key(key(KeyCode::Esc)) {
            KeyOutcome::Close(o) => assert_eq!(o, outcome),
            other => panic!("got {other:?}"),
        }
    }
}

#[test]
fn failures_tell_a_race_from_an_error() {
    let mut modal = open();
    modal.settle(Decision::Approve, Some("late".into()), Some(details(GrantState::Denied)));
    assert!(matches!(modal.step, Step::Result(StepResult::AlreadyHandled)));
    let mut modal = open();
    let waiting = details(GrantState::ApprovalAwaited);
    modal.settle(Decision::Approve, Some("early".into()), Some(waiting));
    assert_eq!(plain(&result_lines(&modal)[1]), "early");
    let mut modal = open();
    modal.settle(Decision::Approve, Some("late".into()), None);
    assert_eq!(plain(&result_lines(&modal)[1]), "late");
    assert!(matches!(
        modal.handle_key(key(KeyCode::Char('q'))),
        KeyOutcome::Close(ApproveOutcome::Failed)
    ));
}

#[test]
fn going_back_forgets_the_reason() {
    let mut modal = open();
    stay(&mut modal, KeyCode::Char('d'));
    stay(&mut modal, KeyCode::Char('x'));
    stay(&mut modal, KeyCode::Esc);
    assert!(modal.reason.is_empty());
    assert!(matches!(modal.step, Step::Confirm));
    stay(&mut modal, KeyCode::Char('A'));
    match modal.handle_key(key(KeyCode::Enter)) {
        KeyOutcome::Submit { decision, reason, .. } => {
            assert_eq!(decision, Decision::Approve);
            assert_eq!(reason, None);
        }
        other => panic!("got {other:?}"),
    }
}

#[test]
fn ways_out_of_the_decision() {
    let mut modal = open();
    assert!(matches!(
        modal.handle_key(key(KeyCode::Char('q'))),
        KeyOutcome::Close(ApproveOutcome::Canceled)
    ));
    assert!(matches!(
        modal.handle_key(KeyEvent { code: KeyCode::Char('c'), ctrl: true }),
        KeyOutcome::Close(ApproveOutcome::Quit)
    ));
    assert_eq!(footer(&modal), "a approve | d deny | esc cancel | ctrl-c quit");
    stay(&mut modal, KeyCode::Char('a'));
    assert_eq!(footer(&modal), "enter confirm | esc back | ctrl-c quit");
    modal.settle(Decision::Deny, None, None);
    assert_eq!(footer(&modal), "enter / esc / q dismiss | ctrl-c quit");
    assert_eq!(Decision::Deny.label(), "deny");
    assert_eq!(HEADER, " approve grant ");
}

#[test]
fn a_decision_without_a_grant_fails() {
    let mut modal = open();
    modal.details = None;
    stay(&mut modal, KeyCode::Char('a'));
    stay(&mut modal, KeyCode::Enter);
    assert_eq!(plain(&result_lines(&modal)[1]), "no grant loaded");
}

#[test]
fn details_are_laid_out() {
    let d = details(GrantState::ApprovalAwaited);
    let reason = TextInput::with_text("fine");
    let texts: Vec<String> = confirm_lines(&d, None, &reason).iter().map(plain).collect();
    assert_eq!(
        texts,
        vec![
            "  requester  me@example.com",
            "  scope      projects/p",
            "  entitlemente",
            "  duration   1h",
            "  state      ApprovalAwaited",
            "  roles:      ",
            "    - roles/a",
            "    - roles/b  (c)",
            "  justify:    ",
            "    (none)",
            "",
            CHOICES,
        ]
    );
    let lines = confirm_lines(&d, Some(Decision::Deny), &reason);
    assert_eq!(plain(&lines[11]), "> reason (deny): fine");
    assert_eq!(plain(&lines[12]), "enter to confirm  |  esc to go back");
    assert_eq!(reason_cursor(Decision::Deny, &reason, lines.len()), (21, 11));
    let mut bare = details(GrantState::Active);
    bare.role_bindings.clear();
    bare.justification = Some("why".into());
    let texts: Vec<String> = confirm_lines(&bare, None, &reason).iter().map(plain).collect();
    assert_eq!(texts[5], "  roles      (none listed)");
    assert_eq!(texts[7], "    why");
    assert_eq!(title(&open()), " grant: e ");
}

#[test]
fn the_decision_is_centered() {
    let area = Area { x: 0, y: 1, width: 100, height: 40 };
    assert_eq!(modal_area(area, 80), Area { x: 10, y: 11, width: 80, height: 20 });
}
