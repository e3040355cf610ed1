use gpam::ipc::ApprovalEvent;
use gpam::tui::approval_queue::{
    FOOTER, Queue, QueueAction, QueueExit, QueueScreen, QueuedEvent, decide, header, new_queue,
    row, rows,
};
use gpam::tui::keymap::{KeyCode, KeyEvent};
use gpam::tui::styled::{Area, Line, Tone, centered};
use std::time::{Duration, SystemTime};

fn key(code: KeyCode) -> KeyEvent {
    KeyEvent { code, ctrl: false }
}

fn event(id: &str, source: Option<&str>) -> ApprovalEvent {
    ApprovalEvent {
        name: format!("folders/42/locations/global/entitlements/my-ent/grants/{id}"),
        source: source.map(|s| s.to_string()),
    }
}

fn queue(ids: &[&str], at: SystemTime) -> Queue {
    let mut q = new_queue();
    for id in ids {
        q.push_back(QueuedEvent { event: event(id, None), received_at: at });
    }
    q
}

fn plain(line: &Line) -> String {
    line.spans.iter().map(|s| s.text.as_str()).collect()
}

#[test]
fn queue_keys() {
    assert_eq!(decide(key(KeyCode::Char('j'))), Some(QueueAction::Down));
    assert_eq!(decide(key(KeyCode::Down)), Some(QueueAction::Down));
    assert_eq!(decide(key(KeyCode::Char('k'))), Some(QueueAction::Up));
    assert_eq!(decide(key(KeyCode::Char('g'))), Some(QueueAction::Top));
    assert_eq!(decide(key(KeyCode::Char('G'))), Some(QueueAction::Bottom));
    assert_eq!(decide(key(KeyCode::Char('x'))), Some(QueueAction::Drop));
    assert_eq!(decide(key(KeyCode::Char('d'))), Some(QueueAction::Drop));
    assert_eq!(decide(key(KeyCode::Esc)), Some(QueueAction::Back));
    assert_eq!(decide(key(KeyCode::Char('c'))), None);
    assert_eq!(
        decide(KeyEvent { code: KeyCode::Char('c'), ctrl: true }),
        Some(QueueAction::Quit)
    );
}

#[test]
fn the_cursor_follows_the_queue() {
    let mut q = queue(&["1", "2", "3"], SystemTime::now());
    let mut s = QueueScreen::new();
    assert_eq!(s.prepare(3), None);
    assert_eq!(s.handle_key(key(KeyCode::Char('k')), 3, &mut q), None);
    assert_eq!(s.cursor, 0);
    s.handle_key(key(KeyCode::Char('G')), 3, &mut q);
    assert_eq!(s.cursor, 2);
    s.handle_key(key(KeyCode::Char('j')), 3, &mut q);
    assert_eq!(s.cursor, 2);
    s.handle_key(key(KeyCode::Char('d')), 3, &mut q);
    assert_eq!(q.len(), 2);
    assert_eq!(q[1].event.name, event("2", None).name);
    assert_eq!(s.prepare(2), None);
    assert_eq!(s.cursor, 1);
    s.handle_key(key(KeyCode::Char('g')), 2, &mut q);
    s.handle_key(key(KeyCode::Char('x')), 2, &mut q);
    assert_eq!(q.len(), 1);
    assert_eq!(q[0].event.name, event("2", None).name);
    assert_eq!(s.handle_key(key(KeyCode::Char('q')), 1, &mut q), Some(QueueExit::Back));
    assert_eq!(
        s.handle_key(KeyEvent { code: KeyCode::Char('c'), ctrl: true }, 1, &mut q),
        Some(QueueExit::Quit)
    );
    // An event that left meanwhile is not dropped twice.
    q.clear();
    assert_eq!(s.handle_key(key(KeyCode::Char('d')), 1, &mut q), None);
    assert_eq!(s.prepare(0), Some(QueueExit::Back));
}

#[test]
fn queue_rows() {
    assert_eq!(header(2), " pending approvals (2) ");
    assert_eq!(FOOTER, "j/k navigate | g/G top/bottom | d/x drop | esc/q back");
    let line = row(&event("1", Some("mail")), Some(90));
    assert_eq!(plain(&line), format!("{:<24}  fldr:{:<16}  (mail)  1m ago", "my-ent", "42"));
    assert_eq!(line.spans[0].tone, Tone::Plain);
    assert_eq!(line.spans[1].tone, Tone::Dim);
    let odd = ApprovalEvent { name: "odd".into(), source: None };
    assert_eq!(plain(&row(&odd, None)), format!("{:<24}  ?:{:<16}  (-)  0s ago", "?", "?"));
    let at = SystemTime::now();
    let q = queue(&["1"], at);
    let later = at + Duration::from_secs(7300);
    assert!(plain(&rows(&q, &later)[0]).ends_with("  2h ago"));
    assert!(plain(&rows(&q, &(at - Duration::from_secs(5)))[0]).ends_with("  0s ago"));
}

#[test]
fn boxes_are_centered() {
    let area = Area { x: 2, y: 3, width: 11, height: 6 };
    assert_eq!(centered(area, 4, 2), Area { x: 5, y: 5, width: 4, height: 2 });
    assert_eq!(centered(area, 20, 9), Area { x: 2, y: 3, width: 20, height: 9 });
}
