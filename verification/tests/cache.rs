use gpam::cache::schema::{
    CACHE_SCHEMA_VERSION, STATE_SCHEMA_VERSION, backup_extension, db_file_name, read_version,
    unix_stamp, write_version,
};
use gpam::cache::{
    Cache, EntitlementRow, FolderRow, GrantRow, MetaRow, OrganizationRow, ProjectRow,
    StoredEntitlement, StoredGrant, meta_keys, now_unix,
};
use gpam::gcp::Scope;

fn temp_cache() -> Cache {
    let mut cache = Cache::new();
    cache.ensure_schema().unwrap();
    cache
}

/// The cache that is loaded from the rows of another one.
fn reopened(cache: &Cache) -> Cache {
    let meta = cache
        .meta_rows()
        .iter()
        .map(|m| MetaRow { key: m.key.clone(), value: m.value.clone() })
        .collect();
    Cache::of(
        meta,
        cache.entitlement_rows().clone(),
        cache.project_rows().clone(),
        cache.folder_rows().clone(),
        cache.organization_rows().clone(),
        cache.grant_rows().clone(),
    )
}

fn ent(scope: Scope, scope_id: &str, name: &str, short: &str) -> EntitlementRow {
    EntitlementRow {
        name: name.into(),
        scope_type: scope,
        scope_id: scope_id.into(),
        scope_display_name: None,
        short_name: short.into(),
        max_request_duration_secs: Some(3600),
        justification_required: true,
        approvers: vec!["user:alice@example.com".into()],
        roles: vec!["roles/viewer".into()],
        raw_json: r#"{"name":"x"}"#.into(),
        fetched_at: 1700000000,
        last_used_at: None,
    }
}

fn grant(id: &str, state: &str, created_at: i64, expires_at: Option<i64>) -> GrantRow {
    GrantRow {
        name: format!("ent/grants/{id}"),
        entitlement_name: "ent".into(),
        entitlement_short_name: "ent-short".into(),
        scope_type: Scope::Project,
        scope_id: "proj".into(),
        scope_display_name: None,
        short_id: id.into(),
        state: state.into(),
        requested_duration_secs: 3600,
        justification: None,
        created_at,
        activated_at: None,
        expires_at,
        last_polled_at: None,
        raw_json: None,
    }
}

#[test]
fn round_trip_entitlement() {
    let mut cache = temp_cache();
    let row = ent(
        Scope::Project,
        "p",
        "projects/p/locations/global/entitlements/e1",
        "e1",
    );
    cache.upsert_entitlement(&row);
    let rows = cache.list_entitlements().unwrap();
    assert_eq!(rows.len(), 1);
    let got = &rows[0];
    assert_eq!(got.name, row.name);
    assert_eq!(got.scope_type, Scope::Project);
    assert_eq!(got.scope_id, "p");
    assert_eq!(got.approvers, row.approvers);
    assert!(got.justification_required);
    assert_eq!(got.last_used_at, None);
}

#[test]
fn list_entitlements_joins_scope_display_name() {
    let mut cache = temp_cache();
    cache.upsert_folder(&FolderRow {
        folder_id: "12345".into(),
        display_name: Some("Platform Team".into()),
        parent: Some("organizations/9".into()),
        fetched_at: 1700000000,
    });
    cache.upsert_organization(&OrganizationRow {
        org_id: "9".into(),
        display_name: Some("example.com".into()),
        fetched_at: 1700000000,
    });
    cache.upsert_entitlement(&ent(
        Scope::Folder,
        "12345",
        "folders/12345/locations/global/entitlements/f1",
        "f1",
    ));
    cache.upsert_entitlement(&ent(
        Scope::Organization,
        "9",
        "organizations/9/locations/global/entitlements/o1",
        "o1",
    ));
    // Folder without a stored display_name still reads back as None.
    cache.upsert_entitlement(&ent(
        Scope::Folder,
        "99999",
        "folders/99999/locations/global/entitlements/f2",
        "f2",
    ));

    let rows = cache.list_entitlements().unwrap();
    let by_name = |short: &str| {
        rows.iter()
            .find(|r| r.short_name == short)
            .cloned()
            .unwrap()
    };
    assert_eq!(
        by_name("f1").scope_display_name.as_deref(),
        Some("Platform Team")
    );
    assert_eq!(
        by_name("o1").scope_display_name.as_deref(),
        Some("example.com")
    );
    assert_eq!(by_name("f2").scope_display_name, None);
}

#[test]
fn bump_used_orders_recent_first() {
    let mut cache = temp_cache();
    for (n, short) in [("a", "alpha"), ("b", "beta"), ("c", "gamma")] {
        let row = EntitlementRow {
            name: format!("projects/p/locations/global/entitlements/{n}"),
            scope_type: Scope::Project,
            scope_id: "p".into(),
            scope_display_name: None,
            short_name: short.into(),
            max_request_duration_secs: None,
            justification_required: false,
            approvers: vec![],
            roles: vec![],
            raw_json: "{}".into(),
            fetched_at: 1700000000,
            last_used_at: None,
        };
        cache.upsert_entitlement(&row);
    }
    cache.bump_used("projects/p/locations/global/entitlements/b", 1700001000);
    cache.bump_used("projects/p/locations/global/entitlements/c", 1700002000);

    let rows = cache.list_entitlements().unwrap();
    assert_eq!(rows[0].short_name, "gamma");
    assert_eq!(rows[1].short_name, "beta");
    assert_eq!(rows[2].short_name, "alpha");
}

#[test]
fn grant_round_trip_and_state_patch() {
    let mut cache = temp_cache();
    let row = GrantRow {
        name: "projects/p/locations/global/entitlements/e/grants/g1".into(),
        entitlement_name: "projects/p/locations/global/entitlements/e".into(),
        entitlement_short_name: "e".into(),
        scope_type: Scope::Project,
        scope_id: "p".into(),
        scope_display_name: None,
        short_id: "g1".into(),
        state: "Requested".into(),
        requested_duration_secs: 3600,
        justification: Some("on-call paging investigation".into()),
        created_at: 1700000000,
        activated_at: None,
        expires_at: None,
        last_polled_at: None,
        raw_json: None,
    };
    cache.upsert_grant(&row);

    let listed = cache.list_tracked_grants(1700000010).unwrap();
    assert_eq!(listed.len(), 1);
    assert_eq!(listed[0].state, "Requested");
    assert_eq!(listed[0].scope_type, Scope::Project);
    assert_eq!(
        listed[0].justification.as_deref(),
        Some("on-call paging investigation")
    );

    cache.update_grant_state(
        &row.name,
        "Active",
        Some(1700000050),
        Some(1700003650),
        1700000050,
    );
    let listed = cache.list_tracked_grants(1700000060).unwrap();
    assert_eq!(listed[0].state, "Active");
    assert_eq!(listed[0].activated_at, Some(1700000050));
    assert_eq!(listed[0].expires_at, Some(1700003650));

    // A second patch without timestamps should leave them intact.
    cache.update_grant_state(&row.name, "Active", None, None, 1700000100);
    let listed = cache.list_tracked_grants(1700000110).unwrap();
    assert_eq!(listed[0].activated_at, Some(1700000050));
    assert_eq!(listed[0].expires_at, Some(1700003650));
    assert_eq!(listed[0].last_polled_at, Some(1700000100));
}

#[test]
fn list_tracked_drops_old_terminal_rows() {
    let mut cache = temp_cache();
    for (id, state, expires) in [
        ("g1", "Active", Some(2_000_000_000_i64)),
        ("g2", "Ended", Some(1_700_000_000_i64)),
        ("g3", "Ended", Some(1_700_003_500_i64)),
    ] {
        let row = GrantRow {
            name: format!("ent/grants/{id}"),
            entitlement_name: "ent".into(),
            entitlement_short_name: "ent-short".into(),
            scope_type: Scope::Project,
            scope_id: "proj".into(),
            scope_display_name: None,
            short_id: id.into(),
            state: state.into(),
            requested_duration_secs: 3600,
            justification: None,
            created_at: 1_700_000_000,
            activated_at: None,
            expires_at: expires,
            last_polled_at: None,
            raw_json: None,
        };
        cache.upsert_grant(&row);
    }
    // Now = 1_700_004_000. Window = 1 hour back -> 1_700_000_400.
    // g1 (Active) always shown; g2 (Ended, expired far in the past) dropped;
    // g3 (Ended, expired 8 minutes ago) shown.
    let listed = cache.list_tracked_grants(1_700_004_000).unwrap();
    let ids: Vec<&str> = listed.iter().map(|g| g.short_id.as_str()).collect();
    assert!(ids.contains(&"g1"));
    assert!(ids.contains(&"g3"));
    assert!(!ids.contains(&"g2"));
}

#[test]
fn fresh_open_records_both_schema_versions() {
    let cache = temp_cache();
    let cache_v = read_version(&cache, meta_keys::CACHE_SCHEMA_VERSION);
    let state_v = read_version(&cache, meta_keys::STATE_SCHEMA_VERSION);
    assert_eq!(cache_v, Some(CACHE_SCHEMA_VERSION));
    assert_eq!(state_v, Some(STATE_SCHEMA_VERSION));
}

#[test]
fn second_open_is_a_noop() {
    let mut first = temp_cache();
    first.upsert_grant(&GrantRow {
        name: "ent/grants/g1".into(),
        entitlement_name: "ent".into(),
        entitlement_short_name: "ent".into(),
        scope_type: Scope::Project,
        scope_id: "p".into(),
        scope_display_name: None,
        short_id: "g1".into(),
        state: "Active".into(),
        requested_duration_secs: 3600,
        justification: None,
        created_at: 1_700_000_000,
        activated_at: Some(1_700_000_000),
        expires_at: Some(1_700_003_600),
        last_polled_at: None,
        raw_json: None,
    });
    let mut cache = reopened(&first);
    let plan = cache.ensure_schema().unwrap();
    assert!(!plan.drop_mirror);
    assert!(plan.migrations.is_empty());
    assert_eq!(plan.back_up, None);
    let listed = cache.list_tracked_grants(1_700_000_500).unwrap();
    assert_eq!(listed.len(), 1);
    assert_eq!(listed[0].short_id, "g1");
}

#[test]
fn rejects_future_state_schema() {
    let mut cache = temp_cache();
    write_version(
        &mut cache,
        meta_keys::STATE_SCHEMA_VERSION,
        STATE_SCHEMA_VERSION + 1,
    );
    let err = match reopened(&cache).ensure_schema() {
        Ok(_) => panic!("expected open to refuse future schema"),
        Err(e) => e,
    };
    assert!(err.message().contains("Refusing to downgrade"));
    assert_eq!(
        err.message(),
        "cache state schema is v2, newer than this gpam (v1). Refusing to downgrade. Use a newer \
         binary or delete the cache file."
    );
}

#[test]
fn fresh_schema_runs_all_migrations_without_backup() {
    let plan = Cache::new().ensure_schema().unwrap();
    assert!(!plan.drop_mirror);
    assert_eq!(plan.migrations, vec![1]);
    assert_eq!(plan.back_up, None);
    assert_eq!(backup_extension(3), "db.v3.bak");
}

#[test]
fn foreign_mirror_is_dropped_and_grants_are_kept() {
    let mut cache = temp_cache();
    cache.upsert_entitlement(&ent(Scope::Project, "p", "n", "e"));
    cache.upsert_project(&ProjectRow {
        project_id: "p".into(),
        display_name: None,
        state: None,
        fetched_at: 1,
    });
    cache.upsert_grant(&grant("g1", "Active", 1_700_000_000, None));
    cache.set_meta_timestamp(meta_keys::ENTITLEMENTS_SCANNED_AT, 5);
    cache.set_meta("other", "kept");
    write_version(&mut cache, meta_keys::CACHE_SCHEMA_VERSION, 99);
    let plan = cache.ensure_schema().unwrap();
    assert!(plan.drop_mirror);
    assert!(cache.list_entitlements().unwrap().is_empty());
    assert!(cache.project_rows().is_empty());
    assert_eq!(cache.meta_timestamp(meta_keys::ENTITLEMENTS_SCANNED_AT), None);
    assert_eq!(cache.get_meta("other").as_deref(), Some("kept"));
    assert_eq!(cache.list_tracked_grants(1_700_000_000).unwrap().len(), 1);
    assert_eq!(
        read_version(&cache, meta_keys::CACHE_SCHEMA_VERSION),
        Some(CACHE_SCHEMA_VERSION)
    );
}

#[test]
fn meta_values_read_back() {
    let mut cache = Cache::new();
    assert_eq!(cache.get_meta("k"), None);
    cache.set_meta("k", "v");
    cache.set_meta("l", "w");
    cache.set_meta("k", "12x");
    assert_eq!(cache.get_meta("k").as_deref(), Some("12x"));
    assert_eq!(cache.get_meta("l").as_deref(), Some("w"));
    assert_eq!(cache.meta_timestamp("k"), None);
    for ts in [0, -1, 1700000000, i64::MIN, i64::MAX] {
        cache.set_meta_timestamp("t", ts);
        assert_eq!(cache.meta_timestamp("t"), Some(ts));
    }
    assert_eq!(cache.meta_rows().len(), 3);
}

#[test]
fn refresh_keeps_last_use() {
    let mut cache = temp_cache();
    let row = ent(Scope::Project, "p", "n", "e");
    cache.upsert_entitlement(&row);
    cache.bump_used("n", 77);
    cache.bump_used("absent", 78);
    let mut again = row.clone();
    again.short_name = "renamed".into();
    again.last_used_at = Some(1);
    cache.upsert_entitlement(&again);
    let rows = cache.list_entitlements().unwrap();
    assert_eq!(rows.len(), 1);
    assert_eq!(rows[0].short_name, "renamed");
    assert_eq!(rows[0].last_used_at, Some(77));
}

#[test]
fn lists_are_stored_as_json() {
    let mut cache = temp_cache();
    let mut row = ent(Scope::Project, "p", "n", "e");
    row.approvers = vec!["a \"b\"".into(), "\u{e9}\n".into()];
    row.roles = vec![];
    cache.upsert_entitlement(&row);
    let stored = &cache.entitlement_rows()[0];
    assert_eq!(stored.approvers_json, "[\"a \\\"b\\\"\",\"\u{e9}\\n\"]");
    assert_eq!(stored.roles_json, "[]");
    assert_eq!(stored.scope_type, "project");
    assert_eq!(stored.justification_required, 1);
    let rows = cache.list_entitlements().unwrap();
    assert_eq!(rows[0].approvers, row.approvers);
    assert_eq!(rows[0].roles, row.roles);
}

fn stored(name: &str, scope_type: &str, scope_id: &str, used: Option<i64>) -> StoredEntitlement {
    StoredEntitlement {
        name: name.into(),
        scope_type: scope_type.into(),
        scope_id: scope_id.into(),
        short_name: name.into(),
        max_request_duration_secs: None,
        justification_required: 0,
        approvers_json: "no json".into(),
        roles_json: "[1]".into(),
        raw_json: "{}".into(),
        fetched_at: 0,
        last_used_at: used,
    }
}

#[test]
fn entitlements_sort_by_use_then_scope_then_name() {
    let cache = Cache::of(
        vec![],
        vec![
            stored("z", "project", "a", None),
            stored("y", "project", "a", None),
            stored("x", "folder", "b", None),
            stored("w", "org", "0", Some(1)),
            stored("v", "project", "a", Some(2)),
            stored("v", "project", "b", Some(3)),
        ],
        vec![],
        vec![],
        vec![],
        vec![],
    );
    let rows = cache.list_entitlements().unwrap();
    let names: Vec<&str> = rows.iter().map(|r| r.name.as_str()).collect();
    assert_eq!(names, vec!["v", "w", "x", "y", "z"]);
    // Of two rows with one key the later one is held.
    assert_eq!(rows[0].scope_id, "b");
    assert!(rows[0].approvers.is_empty());
    assert!(rows[0].roles.is_empty());
    assert!(!rows[0].justification_required);
    assert_eq!(rows[1].scope_type, Scope::Organization);
}

#[test]
fn unknown_scope_fails_the_listing() {
    let cache = Cache::of(
        vec![],
        vec![stored("a", "galaxy", "1", None), stored("b", "nebula", "0", Some(4))],
        vec![],
        vec![],
        vec![],
        vec![StoredGrant {
            name: "g".into(),
            entitlement_name: "e".into(),
            entitlement_short_name: "e".into(),
            scope_type: "cluster".into(),
            scope_id: "1".into(),
            short_id: "g".into(),
            state: "Active".into(),
            requested_duration_secs: 1,
            justification: None,
            created_at: 1,
            activated_at: None,
            expires_at: None,
            last_polled_at: None,
            raw_json: None,
        }],
    );
    assert_eq!(
        cache.list_entitlements().unwrap_err().message(),
        "unknown scope 'nebula'"
    );
    assert_eq!(
        cache.list_tracked_grants(10).unwrap_err().message(),
        "unknown scope 'cluster'"
    );
    assert!(cache.entitlements_or_none().is_empty());
    assert!(cache.grants_or_none(10).is_empty());
}

#[test]
fn strip_is_ordered_by_creation_and_drops_what_expired() {
    let mut cache = temp_cache();
    cache.upsert_grant(&grant("old", "Active", 10, None));
    cache.upsert_grant(&grant("new", "Requested", 30, None));
    cache.upsert_grant(&grant("mid", "DENIED", 20, Some(20)));
    cache.upsert_grant(&grant("unstamped", "Denied", 30, None));
    cache.upsert_grant(&grant("same", "Revoking", 30, None));
    let ids = |cache: &Cache, now: i64| -> Vec<String> {
        cache
            .list_tracked_grants(now)
            .unwrap()
            .into_iter()
            .map(|g| g.short_id)
            .collect()
    };
    assert_eq!(ids(&cache, 3620), vec!["new", "same", "mid", "old"]);
    assert_eq!(ids(&cache, 3621), vec!["new", "same", "old"]);
    // A poll does not bring back what has expired.
    cache.update_grant_state("ent/grants/mid", "DENIED", None, None, 3650);
    assert_eq!(ids(&cache, 3650), vec!["new", "same", "old"]);
    cache.update_grant_state("ent/grants/mid", "DENIED", None, Some(50), 3650);
    assert_eq!(ids(&cache, 3650), vec!["new", "same", "mid", "old"]);
    cache.update_grant_state("absent", "Active", Some(1), Some(2), 3);
    assert_eq!(cache.grant_rows().len(), 5);
}

#[test]
fn stale_active_grants_expire() {
    let mut cache = temp_cache();
    cache.upsert_grant(&grant("over", "Active", 1, Some(100)));
    cache.upsert_grant(&grant("running", "Active", 1, Some(101)));
    cache.upsert_grant(&grant("open", "Active", 1, None));
    cache.upsert_grant(&grant("waiting", "Scheduled", 1, Some(5)));
    cache.expire_stale_active_grants(100);
    let states: Vec<&str> = cache.grant_rows().iter().map(|g| g.state.as_str()).collect();
    assert_eq!(states, vec!["Expired", "Active", "Active", "Scheduled"]);
}

#[test]
fn file_names_are_safe() {
    assert_eq!(db_file_name("me.too@example-1.com"), "me.too@example-1.com.db");
    assert_eq!(db_file_name(""), ".db");
    assert_eq!(
        db_file_name("a/b\\c d_\u{e9}\u{2014}"),
        "a%47%b%92%c%32%d_\u{e9}%8212%.db"
    );
    assert_eq!(db_file_name("a+b@x.com"), "a%43%b@x.com.db");
    assert_eq!(db_file_name("a_b@x.com"), "a_b@x.com.db");
    assert_eq!(db_file_name("a%43%b@x.com"), "a%37%43%37%b@x.com.db");
}

#[test]
fn clock_counts_from_the_epoch() {
    assert_eq!(unix_stamp(None), 0);
    assert_eq!(unix_stamp(Some(1700000000)), 1700000000);
    assert_eq!(unix_stamp(Some(i64::MAX as u64)), i64::MAX);
    assert_eq!(unix_stamp(Some(u64::MAX)), -1);
    assert!(now_unix() > 1_700_000_000);
}
