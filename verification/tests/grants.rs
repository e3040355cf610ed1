use gpam::gcp::Scope;
use gpam::gcp::grants::{
    GrantRecord, GrantState, RoleBindingRecord, SdkState, create_request, get_details,
    is_valid_grant_name, parse_duration, parse_grant_name, parse_scope_from_name, review_request,
};

#[test]
fn parses_duration_formats() {
    assert_eq!(parse_duration("1h"), Some(3600));
    assert_eq!(parse_duration("30m"), Some(1800));
    assert_eq!(parse_duration("5400s"), Some(5400));
    assert_eq!(parse_duration("3600"), Some(3600));
    assert_eq!(parse_duration(""), None);
    assert_eq!(parse_duration("abc"), None);
    assert_eq!(parse_duration("0h"), None);
}

#[test]
fn duration_edge_cases() {
    assert_eq!(parse_duration("  2H\n"), Some(7200));
    assert_eq!(parse_duration("+5M"), Some(300));
    assert_eq!(parse_duration("-5m"), None);
    assert_eq!(parse_duration("h"), None);
    assert_eq!(parse_duration("1 h"), None);
    assert_eq!(parse_duration("1.5h"), None);
    assert_eq!(parse_duration("9223372036854775807"), Some(i64::MAX));
    assert_eq!(parse_duration("9223372036854775807m"), None);
    assert_eq!(parse_duration("9223372036854775808s"), None);
}

#[test]
fn known_state_round_trips() {
    for s in [
        GrantState::Requested,
        GrantState::ApprovalAwaited,
        GrantState::Activating,
        GrantState::Active,
        GrantState::ActivationFailed,
        GrantState::Ended,
    ] {
        let serialized = s.to_string();
        let parsed: GrantState = serialized.parse().unwrap();
        assert_eq!(parsed, s);
    }
}

#[test]
fn every_other_state_round_trips() {
    for s in [
        GrantState::Scheduled,
        GrantState::Revoking,
        GrantState::Withdrawing,
        GrantState::Denied,
        GrantState::Expired,
        GrantState::Revoked,
        GrantState::Withdrawn,
        GrantState::Unknown("".into()),
        GrantState::Unknown("Active".into()),
        GrantState::Unknown("Unknown:x".into()),
    ] {
        assert_eq!(GrantState::parse(&s.to_string()), s);
        assert_eq!(s.clone(), s);
    }
    assert_eq!(GrantState::parse("ACTIVE"), GrantState::Unknown("ACTIVE".into()));
}

#[test]
fn unknown_round_trips() {
    let s = GrantState::Unknown("FooBar".into());
    let serialized = s.to_string();
    assert_eq!(serialized, "Unknown:FooBar");
    let parsed: GrantState = serialized.parse().unwrap();
    assert_eq!(parsed, s);
}

#[test]
fn activating_is_not_active() {
    assert!(!GrantState::Activating.is_active());
    assert!(!GrantState::ActivationFailed.is_active());
    assert!(GrantState::Active.is_active());
}

#[test]
fn parses_scope_from_grant_name() {
    let (s, id, ent) = parse_scope_from_name(
        "organizations/123/locations/global/entitlements/foo/grants/abc",
    )
    .unwrap();
    assert_eq!(s, Scope::Organization);
    assert_eq!(id, "123");
    assert_eq!(ent, "foo");

    let (s, id, ent) =
        parse_scope_from_name("projects/p/locations/global/entitlements/bar/grants/g").unwrap();
    assert_eq!(s, Scope::Project);
    assert_eq!(id, "p");
    assert_eq!(ent, "bar");

    assert!(parse_scope_from_name("garbage").is_err());
    assert!(parse_scope_from_name("users/1/locations/global/entitlements/e/grants/g").is_err());
}

#[test]
fn bad_grant_name_says_which() {
    assert_eq!(
        parse_scope_from_name("garbage").unwrap_err().message(),
        "grant name does not match expected resource shape: 'garbage'"
    );
}

#[test]
fn grants_validator_accepts_org_folder_project() {
    assert!(is_valid_grant_name(
        "organizations/0/locations/global/entitlements/e/grants/g"
    ));
    assert!(is_valid_grant_name(
        "folders/1/locations/global/entitlements/e/grants/g"
    ));
    assert!(is_valid_grant_name(
        "projects/p/locations/global/entitlements/e/grants/g"
    ));
}

#[test]
fn validator_rejects_bad_shapes() {
    // wrong scope root
    assert!(!is_valid_grant_name(
        "users/1/locations/global/entitlements/e/grants/g"
    ));
    // missing segments
    assert!(!is_valid_grant_name("organizations/1/locations/global"));
    // empty id slot
    assert!(!is_valid_grant_name(
        "organizations//locations/global/entitlements/e/grants/g"
    ));
    // a URL
    assert!(!is_valid_grant_name(
        "https://console.cloud.google.com/iam-admin/pam/grants"
    ));
}

#[test]
fn parse_grant_name_exposes_parts() {
    let p = parse_grant_name("projects/p123/locations/global/entitlements/my-ent/grants/uuid-abc")
        .unwrap();
    assert_eq!(p.scope, Scope::Project);
    assert_eq!(p.scope_id, "p123");
    assert_eq!(p.entitlement, "my-ent");
}

#[test]
fn terminal_set() {
    assert!(GrantState::Denied.is_terminal());
    assert!(GrantState::ActivationFailed.is_terminal());
    assert!(GrantState::Ended.is_terminal());
    assert!(!GrantState::Active.is_terminal());
    assert!(!GrantState::Activating.is_terminal());
    assert!(!GrantState::ApprovalAwaited.is_terminal());
}

#[test]
fn reported_states_map_by_name() {
    assert_eq!(GrantState::from_sdk(&SdkState::Active), GrantState::Active);
    assert_eq!(GrantState::from_sdk(&SdkState::Withdrawing), GrantState::Withdrawing);
    assert_eq!(
        GrantState::from_sdk(&SdkState::Other("Unspecified".into())),
        GrantState::Unknown("Unspecified".into())
    );
}

#[test]
fn requests_leave_out_empty_texts() {
    let q = create_request("ent", 3600, Some("why")).unwrap();
    assert_eq!(q.parent, "ent");
    assert_eq!(q.duration_secs, 3600);
    assert_eq!(q.justification.as_deref(), Some("why"));
    assert_eq!(create_request("ent", 1, Some("")).unwrap().justification, None);
    assert_eq!(create_request("ent", 1, None).unwrap().justification, None);
    let r = review_request("g", Some(""));
    assert_eq!(r.name, "g");
    assert_eq!(r.reason, None);
    assert_eq!(review_request("g", Some(" ")).reason.as_deref(), Some(" "));
}

#[test]
fn durations_that_cannot_be_sent_are_refused() {
    let max = 315_576_000_000;
    assert_eq!(create_request("e", max, None).unwrap().duration_secs, max);
    assert_eq!(create_request("e", -max, None).unwrap().duration_secs, -max);
    assert_eq!(create_request("e", max + 1, None).unwrap_err().secs, max + 1);
    assert_eq!(create_request("e", i64::MIN, None).unwrap_err().secs, i64::MIN);
}

#[test]
fn details_are_projected() {
    let record = |name: &str| GrantRecord {
        name: name.into(),
        state: SdkState::ApprovalAwaited,
        requester: "me".into(),
        requested_duration_secs: None,
        justification: Some("".into()),
        role_bindings: Some(vec![
            RoleBindingRecord { role: "r1".into(), condition_expression: "".into() },
            RoleBindingRecord { role: "r2".into(), condition_expression: "c".into() },
        ]),
    };
    let d = get_details(record("folders/7/locations/global/entitlements/e/grants/g")).unwrap();
    assert_eq!(d.state, GrantState::ApprovalAwaited);
    assert_eq!(d.requested_duration_secs, 0);
    assert_eq!(d.justification.as_deref(), Some(""));
    assert_eq!(d.scope_type, Scope::Folder);
    assert_eq!(d.scope_id, "7");
    assert_eq!(d.entitlement_short_name, "e");
    assert_eq!(d.role_bindings.len(), 2);
    assert_eq!(d.role_bindings[0].condition, None);
    assert_eq!(d.role_bindings[1].condition.as_deref(), Some("c"));
    assert_eq!(d.clone().role_bindings[1].role, "r2");
    let mut none = record("projects/p/locations/l/entitlements/e/grants/g");
    none.role_bindings = None;
    none.requested_duration_secs = Some(60);
    let d = get_details(none).unwrap();
    assert!(d.role_bindings.is_empty());
    assert_eq!(d.requested_duration_secs, 60);
    assert_eq!(get_details(record("x")).unwrap_err().name, "x");
}
