use gpam::backend::demo::DemoBackend;
use gpam::cache::{Cache, meta_keys, now_unix};
use gpam::gcp::Scope;
use gpam::refresh::{
    Decision, FANOUT, HARD_TTL_SECS, RefreshEvent, RefreshOptions, RefreshRun, SOFT_TTL_SECS,
    decide, decide_at, failed, is_quiet_failure,
};

#[test]
fn freshness_by_age() {
    let mut cache = Cache::new();
    assert_eq!(decide_at(&cache, 0), Decision::Hard);
    assert_eq!(decide(&cache), Decision::Hard);
    cache.set_meta_timestamp(meta_keys::ENTITLEMENTS_SCANNED_AT, 1000);
    assert_eq!(decide_at(&cache, 1000), Decision::Fresh);
    assert_eq!(decide_at(&cache, 1000 + SOFT_TTL_SECS - 1), Decision::Fresh);
    assert_eq!(decide_at(&cache, 1000 + SOFT_TTL_SECS), Decision::Soft);
    assert_eq!(decide_at(&cache, 1000 + HARD_TTL_SECS - 1), Decision::Soft);
    assert_eq!(decide_at(&cache, 1000 + HARD_TTL_SECS), Decision::Hard);
    assert_eq!(decide_at(&cache, 0), Decision::Fresh);
    assert_eq!((SOFT_TTL_SECS, HARD_TTL_SECS, FANOUT), (1800, 86400, 20));
    cache.set_meta_timestamp(meta_keys::ENTITLEMENTS_SCANNED_AT, now_unix());
    assert_eq!(decide(&cache), Decision::Fresh);
    cache.set_meta(meta_keys::ENTITLEMENTS_SCANNED_AT, "yesterday");
    assert_eq!(decide(&cache), Decision::Hard);
}

#[test]
fn options_choose_scopes() {
    let all = RefreshOptions::default();
    assert!(all.includes(Scope::Project) && all.includes(Scope::Folder));
    assert!(all.includes(Scope::Organization));
    assert_eq!(
        RefreshRun::new(all).listings(),
        vec![Scope::Project, Scope::Folder, Scope::Organization]
    );
    let some = RefreshOptions::skipping(false, true, false);
    assert_eq!(RefreshRun::new(some).listings(), vec![Scope::Project, Scope::Organization]);
    assert!(some.includes(Scope::Project));
    assert!(!some.includes(Scope::Folder));
    assert!(some.includes(Scope::Organization));
}

#[test]
fn a_refresh_fills_the_cache() {
    let demo = DemoBackend::seeded(0);
    let mut cache = Cache::new();
    let mut run = RefreshRun::new(RefreshOptions::default());
    run.discover_projects(&mut cache, &demo.list_projects(10), 11);
    run.discover_folders(&mut cache, &demo.list_folders(10), 12);
    run.discover_organizations(&mut cache, &demo.list_organizations(10), 13);
    let ids: Vec<(Scope, &str)> = run.scopes.iter().map(|t| (t.scope, t.id.as_str())).collect();
    assert_eq!(
        ids,
        vec![
            (Scope::Project, "acme-prod-platform"),
            (Scope::Project, "acme-staging"),
            (Scope::Project, "acme-data-warehouse"),
            (Scope::Folder, "200000001"),
            (Scope::Folder, "200000002"),
            (Scope::Organization, "300000001"),
        ]
    );
    assert_eq!(run.scopes[3].display_name.as_deref(), Some("Engineering"));
    assert_eq!(cache.meta_timestamp(meta_keys::PROJECTS_SCANNED_AT), Some(11));
    assert_eq!(cache.meta_timestamp(meta_keys::FOLDERS_SCANNED_AT), Some(12));
    assert_eq!(cache.meta_timestamp(meta_keys::ORGANIZATIONS_SCANNED_AT), Some(13));
    assert_eq!(cache.meta_timestamp(meta_keys::ENTITLEMENTS_SCANNED_AT), None);
    let mut told = 0;
    for target in run.scopes.clone() {
        let found = demo.search_entitlements(&target, 14);
        let n = found.len();
        let events = run.absorb(&mut cache, found);
        assert_eq!(events.len(), n);
        for e in events {
            match e {
                RefreshEvent::EntitlementUpserted(row) => {
                    assert_eq!(row.scope_id, target.id);
                    told += 1;
                }
                other => panic!("got {other:?}"),
            }
        }
    }
    assert_eq!(told, 8);
    match run.finish(&mut cache, 15) {
        RefreshEvent::Finished { total, error } => {
            assert_eq!(total, 8);
            assert_eq!(error, None);
        }
        other => panic!("got {other:?}"),
    }
    assert_eq!(cache.meta_timestamp(meta_keys::ENTITLEMENTS_SCANNED_AT), Some(15));
    assert_eq!(decide_at(&cache, 15), Decision::Fresh);
    let rows = cache.list_entitlements().unwrap();
    assert_eq!(rows.len(), 8);
    assert_eq!(rows[0].short_name, "eng-admin");
    assert_eq!(rows[0].scope_display_name.as_deref(), Some("Engineering"));
    assert_eq!(rows[7].short_name, "admin-staging");
}

#[test]
fn failures_are_told() {
    match failed("boom".into()).clone() {
        RefreshEvent::Finished { total, error } => {
            assert_eq!(total, 0);
            assert_eq!(error.as_deref(), Some("boom"));
        }
        other => panic!("got {other:?}"),
    }
    assert!(is_quiet_failure("code PERMISSION_DENIED here"));
    assert!(!is_quiet_failure("PERMISSION DENIED"));
}
