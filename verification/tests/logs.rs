use gpam::logs::{Level, LogState, MessageVisitor};
use std::time::SystemTime;

#[test]
fn warnings_are_kept() {
    let mut state = LogState::new("/tmp/gpam.log".into());
    assert!(state.last.is_none());
    assert_eq!(state.unread, 0);
    let at = SystemTime::now();
    state.record(Level::Info, "quiet".into(), at);
    state.record(Level::Debug, "quiet".into(), at);
    state.record(Level::Trace, "quiet".into(), at);
    assert!(state.last.is_none());
    assert_eq!(state.unread, 0);
    state.record(Level::Warn, "first".into(), at);
    state.record(Level::Error, "second".into(), at);
    let last = state.last.as_ref().unwrap();
    assert_eq!(last.message, "second");
    assert_eq!(last.level, Level::Error);
    assert_eq!(last.level.as_str(), "ERROR");
    assert_eq!(last.at, at);
    assert_eq!(state.unread, 2);
    state.clear_unread();
    assert_eq!(state.unread, 0);
    assert!(state.last.is_some());
    state.unread = usize::MAX;
    state.record(Level::Warn, "third".into(), at);
    assert_eq!(state.unread, usize::MAX);
}

#[test]
fn messages_carry_their_fields() {
    let mut v = MessageVisitor::new();
    v.record("grant", "g1".into());
    v.record("message", "lost".into());
    v.record("error", "boom".into());
    v.record("message", "failed".into());
    assert_eq!(v.into_message(), "failed grant=g1 error=boom");
    assert_eq!(MessageVisitor::new().into_message(), "");
}
