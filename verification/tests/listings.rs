use gpam::backend::ScopeTarget;
use gpam::gcp::entitlements::{EntitlementRecord, parent, rows_found, to_row};
use gpam::gcp::folders::{self, FolderRecord};
use gpam::gcp::organizations::{self, OrganizationRecord};
use gpam::gcp::projects::{self, ProjectRecord};
use gpam::gcp::Scope;

#[test]
fn scope_names() {
    for (scope, plural, short, name) in [
        (Scope::Project, "projects", "proj", "project"),
        (Scope::Folder, "folders", "fldr", "folder"),
        (Scope::Organization, "organizations", "org", "organization"),
    ] {
        assert_eq!(scope.plural(), plural);
        assert_eq!(scope.short(), short);
        assert_eq!(scope.as_str(), name);
        assert_eq!(scope.to_string(), name);
        let parsed: Scope = name.parse().unwrap();
        assert_eq!(parsed, scope);
        assert_eq!(Scope::parse(plural).unwrap(), scope);
    }
    assert_eq!(Scope::parse("org").unwrap(), Scope::Organization);
    assert_eq!(Scope::parse("proj").unwrap_err().message(), "unknown scope 'proj'");
}

#[test]
fn inactive_projects_are_skipped() {
    let record = |id: &str, name: &str, active: bool| ProjectRecord {
        project_id: id.into(),
        display_name: name.into(),
        active,
    };
    let rows = projects::list_visible(
        vec![record("a", "A", true), record("", "B", true), record("c", "C", false),
             record("d", "", true)],
        3,
    );
    assert_eq!(rows.len(), 2);
    assert_eq!(rows[0].project_id, "a");
    assert_eq!(rows[0].display_name.as_deref(), Some("A"));
    assert_eq!(rows[0].state.as_deref(), Some("ACTIVE"));
    assert_eq!(rows[0].fetched_at, 3);
    assert_eq!(rows[1].project_id, "d");
    assert_eq!(rows[1].display_name, None);
}

#[test]
fn folders_need_their_prefix() {
    let record = |name: &str, parent: &str, active: bool| FolderRecord {
        name: name.into(),
        display_name: "F".into(),
        parent: parent.into(),
        active,
    };
    let rows = folders::list_visible(
        vec![record("folders/1", "organizations/9", true), record("folders/", "", true),
             record("2", "", true), record("folders/3", "", false), record("folders/4", "", true)],
        3,
    );
    let ids: Vec<&str> = rows.iter().map(|f| f.folder_id.as_str()).collect();
    assert_eq!(ids, vec!["1", "4"]);
    assert_eq!(rows[0].parent.as_deref(), Some("organizations/9"));
    assert_eq!(rows[1].parent, None);
}

#[test]
fn organizations_need_their_prefix() {
    let record = |name: &str, active: bool| OrganizationRecord {
        name: name.into(),
        display_name: "".into(),
        active,
    };
    let rows = organizations::list_visible(
        vec![record("organizations/1", true), record("organizations/", true),
             record("folders/1", true), record("organizations/2", false)],
        3,
    );
    assert_eq!(rows.len(), 1);
    assert_eq!(rows[0].org_id, "1");
    assert_eq!(rows[0].display_name, None);
    assert_eq!(rows[0].fetched_at, 3);
}

#[test]
fn entitlements_are_projected() {
    assert_eq!(parent(Scope::Folder, "7"), "folders/7/locations/global");
    let target = ScopeTarget {
        scope: Scope::Folder,
        id: "7".into(),
        display_name: Some("Seven".into()),
    };
    let full = EntitlementRecord {
        name: "folders/7/locations/global/entitlements/e".into(),
        justification_not_mandatory: false,
        max_request_duration_secs: Some(60),
        approval_steps: Some(vec![
            vec![vec!["a".into(), "b".into()], vec![]],
            vec![vec!["c".into()]],
        ]),
        roles: Some(vec!["r".into()]),
        json: Some("{\"x\":1}".into()),
    };
    let row = to_row(&full, &target, 4);
    assert_eq!(row.name, full.name);
    assert_eq!(row.short_name, "e");
    assert_eq!(row.scope_type, Scope::Folder);
    assert_eq!(row.scope_id, "7");
    assert_eq!(row.scope_display_name.as_deref(), Some("Seven"));
    assert_eq!(row.max_request_duration_secs, Some(60));
    assert!(row.justification_required);
    assert_eq!(row.approvers, vec!["a", "b", "c"]);
    assert_eq!(row.roles, vec!["r"]);
    assert_eq!(row.raw_json, "{\"x\":1}");
    assert_eq!((row.fetched_at, row.last_used_at), (4, None));
    let bare = EntitlementRecord {
        name: "e".into(),
        justification_not_mandatory: true,
        max_request_duration_secs: None,
        approval_steps: None,
        roles: None,
        json: None,
    };
    let rows = rows_found(&vec![full, bare], &target, 4);
    assert_eq!(rows.len(), 2);
    assert_eq!(rows[1].short_name, "e");
    assert!(!rows[1].justification_required);
    assert!(rows[1].approvers.is_empty() && rows[1].roles.is_empty());
    assert_eq!(rows[1].raw_json, "{}");
}
