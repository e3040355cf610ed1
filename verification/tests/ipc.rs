use gpam::ipc::{ApprovalEvent, ConnectFailure, SOCKET_FILE, frame_line, is_valid_grant_name};

const ORG_NAME: &str = "organizations/000000000000/locations/global/entitlements/example-org-ent/grants/aaaaaaaa-bbbb-cccc-dddd-eeeeeeeeeeee";
const PROJ_NAME: &str = "projects/111122223333/locations/global/entitlements/example-proj-ent/grants/11111111-2222-3333-4444-555555555555";
const FOLDER_NAME: &str = "folders/222233334444/locations/global/entitlements/example-folder-ent/grants/55555555-6666-7777-8888-999999999999";

#[test]
fn ipc_validator_accepts_org_folder_project() {
    assert!(is_valid_grant_name(ORG_NAME));
    assert!(is_valid_grant_name(FOLDER_NAME));
    assert!(is_valid_grant_name(PROJ_NAME));
}

#[test]
fn validator_rejects_wrong_scope_root() {
    assert!(!is_valid_grant_name(
        "users/1/locations/global/entitlements/e/grants/g"
    ));
}

#[test]
fn validator_rejects_missing_segments() {
    assert!(!is_valid_grant_name("organizations/1/locations/global"));
}

#[test]
fn validator_rejects_empty_id() {
    assert!(!is_valid_grant_name(
        "organizations//locations/global/entitlements/e/grants/g"
    ));
}

#[test]
fn validator_rejects_url() {
    assert!(!is_valid_grant_name(
        "https://console.cloud.google.com/iam-admin/pam/grants"
    ));
}

#[test]
fn validators_agree() {
    for name in [
        ORG_NAME,
        "organizations/1/locations/l/entitlements/e/grants/",
        "organizations/1/locations/l/entitlements/e/grants/g/",
        "organizations/1/locations//entitlements/e/grants/g",
        "",
    ] {
        assert_eq!(
            is_valid_grant_name(name),
            gpam::gcp::grants::is_valid_grant_name(name)
        );
    }
}

#[test]
fn connect_failures_name_the_socket() {
    assert_eq!(
        ConnectFailure::NotFound.message("/x"),
        "no gpam TUI listening at /x (start gpam in another terminal first)"
    );
    assert_eq!(
        ConnectFailure::Refused.message("/x"),
        "stale socket at /x (no live listener)"
    );
    assert_eq!(
        ConnectFailure::Other("boom".into()).message("/x"),
        "connecting to /x: boom"
    );
}

#[test]
fn events_are_framed_by_line() {
    let event = ApprovalEvent { name: "n".into(), source: Some("cli".into()) };
    let copy = event.clone();
    assert_eq!(copy.name, "n");
    assert_eq!(copy.source.as_deref(), Some("cli"));
    assert_eq!(frame_line(vec![b'{', b'}']), b"{}\n".to_vec());
    assert_eq!(SOCKET_FILE, "gpam.sock");
}
