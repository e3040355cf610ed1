use gpam::cache::{Cache, GrantRow};
use gpam::gcp::Scope;
use gpam::gcp::grants::GrantState;
use gpam::poller::{
    DEFAULT_POLL_INTERVAL_MILLIS, DEMO_POLL_INTERVAL_MILLIS, GrantPoll, PollMode, PollStep, launch,
    resume,
};

fn grant(name: &str, state: &str, expires_at: Option<i64>) -> GrantRow {
    GrantRow {
        name: name.into(),
        entitlement_name: "e".into(),
        entitlement_short_name: "e".into(),
        scope_type: Scope::Project,
        scope_id: "p".into(),
        scope_display_name: None,
        short_id: name.into(),
        state: state.into(),
        requested_duration_secs: 3600,
        justification: None,
        created_at: 1000,
        activated_at: None,
        expires_at,
        last_polled_at: None,
        raw_json: None,
    }
}

fn cached(state: &str) -> Cache {
    let mut cache = Cache::new();
    cache.upsert_grant(&grant("g", state, None));
    cache
}

fn track(state: GrantState) -> GrantPoll {
    GrantPoll::new("g".into(), 3600, state, PollMode::Track)
}

#[test]
fn tracking_ends_with_activation() {
    let mut cache = cached("Requested");
    let mut poll = track(GrantState::Requested);
    let step = poll.observe(&mut cache, GrantState::ApprovalAwaited, 1010);
    assert_eq!(step, PollStep { notify: true, stop: false });
    let row = &cache.grant_rows()[0];
    assert_eq!(row.state, "ApprovalAwaited");
    assert_eq!((row.activated_at, row.expires_at, row.last_polled_at), (None, None, Some(1010)));
    let step = poll.observe(&mut cache, GrantState::Active, 1020);
    assert_eq!(step, PollStep { notify: true, stop: true });
    let row = &cache.grant_rows()[0];
    assert_eq!(row.state, "Active");
    assert_eq!((row.activated_at, row.expires_at), (Some(1020), Some(4620)));
    // An active grant is stamped once.
    poll.observe(&mut cache, GrantState::Active, 1030);
    let row = &cache.grant_rows()[0];
    assert_eq!((row.activated_at, row.last_polled_at), (Some(1020), Some(1030)));
}

#[test]
fn tracking_ends_with_a_final_state() {
    let mut cache = cached("Requested");
    let step = track(GrantState::Requested).observe(&mut cache, GrantState::Denied, 1010);
    assert!(step.stop);
    assert_eq!(cache.grant_rows()[0].state, "Denied");
    assert_eq!(cache.grant_rows()[0].activated_at, None);
}

#[test]
fn confirmation_polls_once() {
    let mut cache = cached("Active");
    let mut poll = GrantPoll::new("g".into(), 3600, GrantState::Active, PollMode::ConfirmOnce);
    assert!(poll.observe(&mut cache, GrantState::Revoking, 1010).stop);
    assert_eq!(cache.grant_rows()[0].state, "Revoking");
    // Once active, never stamped again by this polling.
    assert!(poll.observe(&mut cache, GrantState::Active, 1020).stop);
    assert_eq!(cache.grant_rows()[0].activated_at, None);
}

#[test]
fn unobservable_grants_are_revoked() {
    for message in ["status PERMISSION_DENIED: no", "NOT_FOUND"] {
        let mut cache = cached("Active");
        let step = track(GrantState::Requested).fail(&mut cache, message, 1010);
        assert_eq!(step, PollStep { notify: true, stop: true });
        assert_eq!(cache.grant_rows()[0].state, "Revoked");
        assert_eq!(cache.grant_rows()[0].last_polled_at, Some(1010));
    }
}

#[test]
fn other_failures_are_retried() {
    let mut cache = cached("Active");
    let step = track(GrantState::Requested).fail(&mut cache, "UNAVAILABLE", 1010);
    assert_eq!(step, PollStep { notify: false, stop: false });
    let confirm = GrantPoll::new("g".into(), 1, GrantState::Active, PollMode::ConfirmOnce);
    assert_eq!(
        confirm.fail(&mut cache, "UNAVAILABLE", 1010),
        PollStep { notify: false, stop: true }
    );
    assert_eq!(cache.grant_rows()[0].state, "Active");
    assert_eq!(cache.grant_rows()[0].last_polled_at, None);
}

#[test]
fn launch_resumes_what_is_open() {
    let mut cache = Cache::new();
    cache.upsert_grant(&grant("active", "Active", Some(2000)));
    cache.upsert_grant(&grant("stale", "Active", Some(1500)));
    cache.upsert_grant(&grant("open", "ApprovalAwaited", None));
    cache.upsert_grant(&grant("odd", "Unknown:X", None));
    cache.upsert_grant(&grant("over", "Denied", None));
    let polls = launch(&mut cache, 1500);
    let seen: Vec<(&str, PollMode)> =
        polls.iter().map(|p| (p.grant_name.as_str(), p.mode)).collect();
    assert_eq!(
        seen,
        vec![
            ("active", PollMode::ConfirmOnce),
            ("open", PollMode::Track),
            ("odd", PollMode::Track),
        ]
    );
    assert!(polls[0].already_active);
    assert_eq!(polls[1].last_state, GrantState::ApprovalAwaited);
    assert_eq!(polls[1].requested_duration_secs, 3600);
    assert_eq!(cache.grant_rows()[1].state, "Expired");
    assert!(resume(&vec![grant("x", "Ended", None)]).is_empty());
}

#[test]
fn poll_intervals() {
    assert_eq!(DEFAULT_POLL_INTERVAL_MILLIS, 3000);
    assert_eq!(DEMO_POLL_INTERVAL_MILLIS, 800);
}
