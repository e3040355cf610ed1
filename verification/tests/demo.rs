use gpam::backend::ScopeTarget;
use gpam::backend::demo::DemoBackend;
use gpam::gcp::Scope;
use gpam::gcp::grants::GrantState;

fn target(scope: Scope, id: &str) -> ScopeTarget {
    ScopeTarget { scope, id: id.into(), display_name: Some("Shown".into()) }
}

#[test]
fn demo_lists_are_stamped() {
    let demo = DemoBackend::seeded(5);
    let projects = demo.list_projects(9);
    let ids: Vec<&str> = projects.iter().map(|p| p.project_id.as_str()).collect();
    assert_eq!(ids, vec!["acme-prod-platform", "acme-staging", "acme-data-warehouse"]);
    assert!(projects.iter().all(|p| p.fetched_at == 9 && p.state.as_deref() == Some("Active")));
    let folders = demo.list_folders(9);
    assert_eq!(folders.len(), 2);
    assert_eq!(folders[1].display_name.as_deref(), Some("Platform Team"));
    assert_eq!(folders[1].parent.as_deref(), Some("organizations/300000001"));
    let orgs = demo.list_organizations(9);
    assert_eq!(orgs.len(), 1);
    assert_eq!(orgs[0].display_name.as_deref(), Some("acme.example.com"));
}

#[test]
fn demo_entitlements_by_scope() {
    let demo = DemoBackend::default();
    let rows = demo.search_entitlements(&target(Scope::Project, "acme-prod-platform"), 7);
    let names: Vec<&str> = rows.iter().map(|e| e.name.as_str()).collect();
    assert_eq!(
        names,
        vec![
            "projects/acme-prod-platform/locations/global/entitlements/sre-break-glass",
            "projects/acme-prod-platform/locations/global/entitlements/logs-read",
        ]
    );
    assert_eq!(rows[0].approvers, vec!["user:on-call@acme.example.com"]);
    assert_eq!(rows[0].roles, vec!["roles/owner"]);
    assert_eq!(rows[0].max_request_duration_secs, Some(14400));
    assert!(rows[0].justification_required);
    assert_eq!(rows[0].scope_display_name.as_deref(), Some("Shown"));
    assert_eq!(rows[0].fetched_at, 7);
    assert!(rows[1].approvers.is_empty());
    assert!(!rows[1].justification_required);
    assert!(demo.search_entitlements(&target(Scope::Folder, "acme-staging"), 7).is_empty());
    assert_eq!(demo.search_entitlements(&target(Scope::Organization, "300000001"), 7).len(), 2);
    assert_eq!(demo.search_entitlements(&target(Scope::Folder, "200000001"), 7).len(), 1);
}

#[test]
fn demo_grants_become_active() {
    let mut demo = DemoBackend::new();
    let auto = "projects/acme-prod-platform/locations/global/entitlements/logs-read";
    let manual = "projects/acme-prod-platform/locations/global/entitlements/sre-break-glass";
    let a = demo.create_grant(auto);
    let m = demo.create_grant(manual);
    let u = demo.create_grant("elsewhere");
    assert_eq!(a, format!("{auto}/grants/demo-0001"));
    assert_eq!(m, format!("{manual}/grants/demo-0002"));
    assert_eq!(u, "elsewhere/grants/demo-0003");
    assert_eq!(demo.get_grant_state(&a), GrantState::Active);
    assert_eq!(demo.get_grant_state(&m), GrantState::ApprovalAwaited);
    assert_eq!(demo.get_grant_state(&m), GrantState::Active);
    assert_eq!(demo.get_grant_state(&m), GrantState::Active);
    assert_eq!(demo.get_grant_state(&u), GrantState::Active);
    assert_eq!(demo.get_grant_state("from/an/earlier/run"), GrantState::Ended);
}
