//! What holds of the cache over several operations.
use vstd::prelude::*;
use crate::cache;
use crate::cache::CacheModel;
use crate::cache::rows::{
    EntitlementModel, FolderModel, GrantModel, OrganizationModel, ProjectModel,
    StoredEntitlementModel, StoredGrantModel,
};
use crate::gcp::Scope;
use crate::gcp::grants::StateModel;
use crate::numbers;
use crate::order;
use crate::table;
use crate::table::Keyed;
use crate::text;

verus! {

/// A value is read back under its key, and storing it changes no other key.
pub proof fn law_meta_reads_back(c: CacheModel, key: Seq<char>, value: Seq<char>, other: Seq<char>)
    requires
        c.wf(),
        other != key,
    ensures
        c.with_meta(key, value).meta_value(key) == Some(value),
        c.with_meta(key, value).meta_value(other) == c.meta_value(other),
{
    table::lemma_stored(c.meta, cache::rows::MetaModel { key, value });
    let m = cache::rows::MetaModel { key, value };
    assert(table::get(table::stored(c.meta, m), other) == table::get(c.meta, other));
}

/// A time stamp is read back under its key.
pub proof fn law_timestamp_reads_back(c: CacheModel, key: Seq<char>, ts: i64)
    requires
        c.wf(),
    ensures
        c.with_timestamp(key, ts).timestamp(key) == Some(ts),
{
    table::lemma_stored(
        c.meta,
        cache::rows::MetaModel { key, value: numbers::int_text(ts as int) },
    );
    numbers::law_int_text_reads_back(ts);
}

/// Storing an entitlement never changes when an entitlement was last used.
pub proof fn law_upsert_keeps_last_used(c: CacheModel, row: EntitlementModel, name: Seq<char>)
    requires
        c.wf(),
    ensures
        c.with_entitlement(row).last_used(name) == c.last_used(name),
{
    let e = cache::stored_entitlement(row, c.last_used(row.name));
    table::lemma_stored(c.entitlements, e);
    if name != row.name {
        assert(table::get(table::stored(c.entitlements, e), name) == table::get(
            c.entitlements,
            name,
        ));
    }
}

/// Storing one entitlement twice is storing it once.
pub proof fn law_upsert_twice(c: CacheModel, row: EntitlementModel)
    requires
        c.wf(),
    ensures
        c.with_entitlement(row).with_entitlement(row) == c.with_entitlement(row),
{
    let e = cache::stored_entitlement(row, c.last_used(row.name));
    table::lemma_stored(c.entitlements, e);
    table::lemma_slot(table::stored(c.entitlements, e), row.name);
    law_upsert_keeps_last_used(c, row, row.name);
    let once = c.with_entitlement(row).entitlements;
    assert(once.update(table::slot(once, row.name), e) =~= once);
}

/// A use is remembered for the entitlement that was used, and for no other.
pub proof fn law_use_is_remembered(c: CacheModel, name: Seq<char>, ts: i64, other: Seq<char>)
    requires
        c.wf(),
        other != name,
    ensures
        table::holds(c.entitlements, name) ==> c.with_use(name, ts).last_used(name) == Some(ts),
        c.with_use(name, ts).last_used(other) == c.last_used(other),
{
    if table::holds(c.entitlements, name) {
        table::lemma_slot(c.entitlements, name);
        let e = table::get(c.entitlements, name)->0;
        let u = StoredEntitlementModel { last_used_at: Some(ts), ..e };
        table::lemma_stored(c.entitlements, u);
        assert(table::get(table::stored(c.entitlements, u), other) == table::get(
            c.entitlements,
            other,
        ));
    }
}

/// A poll that brings no stamps leaves those a grant has, one that brings them
/// sets them, and no poll touches another grant.
pub proof fn law_poll_stamps(
    c: CacheModel,
    name: Seq<char>,
    state: Seq<char>,
    activated_at: Option<i64>,
    expires_at: Option<i64>,
    now: i64,
    other: Seq<char>,
)
    requires
        c.wf(),
        other != name,
    ensures
        ({
            let d = c.with_poll(name, state, activated_at, expires_at, now);
            &&& table::get(c.grants, name) matches Some(g) ==> (table::get(d.grants, name)
                matches Some(h) && h.state == state && h.last_polled_at == Some(now)
                && h.activated_at == (if activated_at is Some {
                activated_at
            } else {
                g.activated_at
            }) && h.expires_at == (if expires_at is Some {
                expires_at
            } else {
                g.expires_at
            }))
            &&& table::get(d.grants, other) == table::get(c.grants, other)
        }),
{
    if table::holds(c.grants, name) {
        table::lemma_slot(c.grants, name);
        let g = table::get(c.grants, name)->0;
        let p = cache::polled(g, state, activated_at, expires_at, now);
        table::lemma_stored(c.grants, p);
        assert(table::get(table::stored(c.grants, p), other) == table::get(c.grants, other));
    }
}

/// Polling a grant that is not there changes nothing.
pub proof fn law_poll_of_unknown_grant(
    c: CacheModel,
    name: Seq<char>,
    state: Seq<char>,
    activated_at: Option<i64>,
    expires_at: Option<i64>,
    now: i64,
)
    requires
        !table::holds(c.grants, name),
    ensures
        c.with_poll(name, state, activated_at, expires_at, now) == c,
{
}

/// A grant is read back under its name as it was stored, with the name of its
/// scope as the cache knows it.
pub proof fn law_grant_reads_back(c: CacheModel, row: GrantModel)
    requires
        c.wf(),
    ensures
        ({
            let d = c.with_grant(row);
            table::get(d.grants, row.name) matches Some(g) && Scope::named(g.scope_type) == Some(
                row.scope_type,
            ) && d.read_grant(g, row.scope_type) == (GrantModel {
                scope_display_name: d.display_name(row.scope_type.name_text(), row.scope_id),
                ..row
            })
        }),
{
    table::lemma_stored(c.grants, cache::stored_grant(row));
    row.scope_type.law_names_read_back();
}

/// The listing of entitlements holds each one once, the one used last first,
/// and those never used behind all others.
pub proof fn law_listing_order(s: Seq<StoredEntitlementModel>)
    ensures
        ({
            let places = cache::listed_order(s);
            &&& places.len() == s.len()
            &&& places.no_duplicates()
            &&& forall|i: int| 0 <= i < s.len() ==> #[trigger] places.contains(i)
            &&& forall|k: int| 0 <= k < places.len() ==> 0 <= #[trigger] places[k] < s.len()
            &&& forall|k: int, l: int|
                0 <= k < l < places.len() ==> cache::listed_leq(
                    s,
                    #[trigger] places[k],
                    #[trigger] places[l],
                )
            &&& forall|k: int, l: int|
                0 <= k < l < places.len() && s[places[l]].last_used_at is Some ==> (
                s[#[trigger] places[k]].last_used_at is Some && s[places[k]].last_used_at->0
                    >= s[#[trigger] places[l]].last_used_at->0)
        }),
{
    let leq = |i: int, j: int| cache::listed_leq(s, i, j);
    let all = order::below(s.len());
    let places = cache::listed_order(s);
    cache::lemma_listed_total(s);
    order::lemma_rearranged(all, leq);
    assert forall|k: int| 0 <= k < places.len() implies 0 <= #[trigger] places[k] < s.len() by {
        assert(places.contains(places[k]));
        assert(all.contains(places[k]));
    }
    assert forall|i: int| 0 <= i < s.len() implies #[trigger] places.contains(i) by {
        assert(all[i] == i);
    }
    assert forall|k: int, l: int| 0 <= k < l < places.len() implies cache::listed_leq(
        s,
        #[trigger] places[k],
        #[trigger] places[l],
    ) by {
        assert(leq(places[k], places[l]));
    }
    assert forall|k: int, l: int|
        0 <= k < l < places.len() && s[places[l]].last_used_at is Some implies (
    s[#[trigger] places[k]].last_used_at is Some && s[places[k]].last_used_at->0
        >= s[#[trigger] places[l]].last_used_at->0) by {
        assert(cache::listed_leq(s, places[k], places[l]));
        cache::lemma_listed_before(s[places[k]], s[places[l]]);
    }
}

/// The strip lists exactly the grants that are not over or that expired
/// recently, each once, the one created last first.
pub proof fn law_strip_order(s: Seq<StoredGrantModel>, cutoff: int)
    ensures
        ({
            let places = cache::tracked_order(s, cutoff);
            &&& places.no_duplicates()
            &&& forall|i: int|
                #[trigger] places.contains(i) <==> 0 <= i < s.len() && cache::in_strip(s[i], cutoff)
            &&& forall|k: int, l: int|
                0 <= k < l < places.len() ==> (s[#[trigger] places[k]].created_at
                    >= s[#[trigger] places[l]].created_at)
        }),
{
    let leq = |i: int, j: int| cache::newest_leq(s, i, j);
    let keep = |i: int| cache::in_strip(s[i], cutoff);
    let all = order::below(s.len());
    let kept = all.filter(keep);
    let places = cache::tracked_order(s, cutoff);
    cache::lemma_newest_total(s);
    order::lemma_kept(s.len(), keep);
    order::lemma_rearranged(kept, leq);
    assert forall|i: int| #[trigger] places.contains(i) <==> 0 <= i < s.len() && cache::in_strip(
        s[i],
        cutoff,
    ) by {
        assert(kept.contains(i) <==> 0 <= i < s.len() && keep(i));
    }
    assert forall|k: int, l: int| 0 <= k < l < places.len() implies (
    s[#[trigger] places[k]].created_at >= s[#[trigger] places[l]].created_at) by {
        assert(leq(places[k], places[l]));
    }
}

/// No active grant whose time has run out is left, and marking again changes
/// nothing.
pub proof fn law_expiry_is_complete(c: CacheModel, now: i64)
    ensures
        forall|i: int|
            0 <= i < c.with_expiry(now).grants.len() ==> !cache::ran_out(
                #[trigger] c.with_expiry(now).grants[i],
                now,
            ),
        c.with_expiry(now).with_expiry(now) == c.with_expiry(now),
{
    reveal_strlit("Active");
    reveal_strlit("Expired");
    assert("Active"@.len() != "Expired"@.len());
    let d = c.with_expiry(now);
    assert(d.with_expiry(now).grants =~= d.grants);
}

/// A stored state that stands for a grant that is over is one the strip drops
/// in time.
pub proof fn law_terminal_names(s: Seq<char>)
    requires
        StateModel::read(s).terminal(),
    ensures
        cache::terminal_name(s),
{
}

/// The cache that holds a cache's own rows is that cache.
pub proof fn law_rows_restore(c: CacheModel)
    requires
        c.wf(),
    ensures
        table::stored_all(Seq::empty(), c.meta) == c.meta,
        table::stored_all(Seq::empty(), c.entitlements) == c.entitlements,
        table::stored_all(Seq::empty(), c.projects) == c.projects,
        table::stored_all(Seq::empty(), c.folders) == c.folders,
        table::stored_all(Seq::empty(), c.organizations) == c.organizations,
        table::stored_all(Seq::empty(), c.grants) == c.grants,
{
    table::lemma_stored_all_fresh(c.meta);
    table::lemma_stored_all_fresh(c.entitlements);
    table::lemma_stored_all_fresh(c.projects);
    table::lemma_stored_all_fresh(c.folders);
    table::lemma_stored_all_fresh(c.organizations);
    table::lemma_stored_all_fresh(c.grants);
}

proof fn lemma_scope_words()
    ensures
        "project"@ != "folder"@,
        "project"@ != "organization"@,
        "folder"@ != "organization"@,
{
    reveal_strlit("project");
    reveal_strlit("folder");
    reveal_strlit("organization");
    assert("project"@.len() == 7 && "folder"@.len() == 6 && "organization"@.len() == 12);
}

/// The name of a project is the one its row holds, whatever else the row says;
/// a project without a row has none.
pub proof fn law_project_names(c: CacheModel, id: Seq<char>)
    requires
        c.wf(),
    ensures
        forall|i: int|
            0 <= i < c.projects.len() && (#[trigger] c.projects[i]).project_id == id ==> c.display_name(
                Scope::Project.name_text(),
                id,
            ) == c.projects[i].display_name,
        (forall|i: int| 0 <= i < c.projects.len() ==> (#[trigger] c.projects[i]).project_id != id)
            ==> c.display_name(Scope::Project.name_text(), id) is None,
{
    table::lemma_slot(c.projects, id);
    lemma_scope_words();
    assert forall|i: int| 0 <= i < c.projects.len() && (#[trigger] c.projects[i]).project_id
        == id implies c.display_name(Scope::Project.name_text(), id) == c.projects[i].display_name by {
        assert(c.projects[i].key() == id);
        table::lemma_slot_of(c.projects, i);
    }
    if forall|i: int| 0 <= i < c.projects.len() ==> (#[trigger] c.projects[i]).project_id != id {
        let at = table::slot(c.projects, id);
        if at < c.projects.len() {
            assert(c.projects[at].key() == id);
            assert(c.projects[at].project_id != id);
        }
    }
}

/// A project that is stored gives its name to its scope, and no other scope's
/// name changes.
pub proof fn law_stored_project_is_named(
    c: CacheModel,
    row: ProjectModel,
    scope: Scope,
    other: Seq<char>,
)
    requires
        c.wf(),
        scope != Scope::Project || other != row.project_id,
    ensures
        c.with_project(row).display_name(Scope::Project.name_text(), row.project_id) == row.display_name,
        c.with_project(row).display_name(scope.name_text(), other) == c.display_name(
            scope.name_text(),
            other,
        ),
{
    table::lemma_stored(c.projects, row);
    lemma_scope_words();
    assert(row.key() == row.project_id);
    if scope == Scope::Project {
        assert(table::get(table::stored(c.projects, row), other) == table::get(c.projects, other));
    }
}

/// The name of a folder is the one its row holds, whatever else the row says;
/// a folder without a row has none.
pub proof fn law_folder_names(c: CacheModel, id: Seq<char>)
    requires
        c.wf(),
    ensures
        forall|i: int|
            0 <= i < c.folders.len() && (#[trigger] c.folders[i]).folder_id == id ==> c.display_name(
                Scope::Folder.name_text(),
                id,
            ) == c.folders[i].display_name,
        (forall|i: int| 0 <= i < c.folders.len() ==> (#[trigger] c.folders[i]).folder_id != id)
            ==> c.display_name(Scope::Folder.name_text(), id) is None,
{
    table::lemma_slot(c.folders, id);
    lemma_scope_words();
    assert forall|i: int| 0 <= i < c.folders.len() && (#[trigger] c.folders[i]).folder_id
        == id implies c.display_name(Scope::Folder.name_text(), id) == c.folders[i].display_name by {
        assert(c.folders[i].key() == id);
        table::lemma_slot_of(c.folders, i);
    }
    if forall|i: int| 0 <= i < c.folders.len() ==> (#[trigger] c.folders[i]).folder_id != id {
        let at = table::slot(c.folders, id);
        if at < c.folders.len() {
            assert(c.folders[at].key() == id);
            assert(c.folders[at].folder_id != id);
        }
    }
}

/// A folder that is stored gives its name to its scope, and no other scope's
/// name changes.
pub proof fn law_stored_folder_is_named(
    c: CacheModel,
    row: FolderModel,
    scope: Scope,
    other: Seq<char>,
)
    requires
        c.wf(),
        scope != Scope::Folder || other != row.folder_id,
    ensures
        c.with_folder(row).display_name(Scope::Folder.name_text(), row.folder_id) == row.display_name,
        c.with_folder(row).display_name(scope.name_text(), other) == c.display_name(
            scope.name_text(),
            other,
        ),
{
    table::lemma_stored(c.folders, row);
    lemma_scope_words();
    assert(row.key() == row.folder_id);
    if scope == Scope::Folder {
        assert(table::get(table::stored(c.folders, row), other) == table::get(c.folders, other));
    }
}

/// The name of a organization is the one its row holds, whatever else the row says;
/// a organization without a row has none.
pub proof fn law_organization_names(c: CacheModel, id: Seq<char>)
    requires
        c.wf(),
    ensures
        forall|i: int|
            0 <= i < c.organizations.len() && (#[trigger] c.organizations[i]).org_id == id ==> c.display_name(
                Scope::Organization.name_text(),
                id,
            ) == c.organizations[i].display_name,
        (forall|i: int| 0 <= i < c.organizations.len() ==> (#[trigger] c.organizations[i]).org_id != id)
            ==> c.display_name(Scope::Organization.name_text(), id) is None,
{
    table::lemma_slot(c.organizations, id);
    lemma_scope_words();
    assert forall|i: int| 0 <= i < c.organizations.len() && (#[trigger] c.organizations[i]).org_id
        == id implies c.display_name(Scope::Organization.name_text(), id) == c.organizations[i].display_name by {
        assert(c.organizations[i].key() == id);
        table::lemma_slot_of(c.organizations, i);
    }
    if forall|i: int| 0 <= i < c.organizations.len() ==> (#[trigger] c.organizations[i]).org_id != id {
        let at = table::slot(c.organizations, id);
        if at < c.organizations.len() {
            assert(c.organizations[at].key() == id);
            assert(c.organizations[at].org_id != id);
        }
    }
}

/// A organization that is stored gives its name to its scope, and no other scope's
/// name changes.
pub proof fn law_stored_organization_is_named(
    c: CacheModel,
    row: OrganizationModel,
    scope: Scope,
    other: Seq<char>,
)
    requires
        c.wf(),
        scope != Scope::Organization || other != row.org_id,
    ensures
        c.with_organization(row).display_name(Scope::Organization.name_text(), row.org_id) == row.display_name,
        c.with_organization(row).display_name(scope.name_text(), other) == c.display_name(
            scope.name_text(),
            other,
        ),
{
    table::lemma_stored(c.organizations, row);
    lemma_scope_words();
    assert(row.key() == row.org_id);
    if scope == Scope::Organization {
        assert(table::get(table::stored(c.organizations, row), other) == table::get(c.organizations, other));
    }
}

/// An entitlement is read as it is stored, with the name of its scope.
pub proof fn law_entitlements_read_as_stored(
    c: CacheModel,
    e: StoredEntitlementModel,
    scope: Scope,
)
    requires
        e.scope_type == scope.name_text(),
    ensures
        ({
            let r = c.read_entitlement(e, scope);
            &&& r.name == e.name
            &&& r.scope_type == scope
            &&& r.scope_id == e.scope_id
            &&& r.scope_display_name == c.display_name(scope.name_text(), e.scope_id)
            &&& r.short_name == e.short_name
            &&& r.max_request_duration_secs == e.max_request_duration_secs
            &&& r.justification_required <==> e.justification_required != 0
            &&& r.approvers == cache::decoded(e.approvers_json)
            &&& r.roles == cache::decoded(e.roles_json)
            &&& r.raw_json == e.raw_json
            &&& r.fetched_at == e.fetched_at
            &&& r.last_used_at == e.last_used_at
        }),
{
}

/// A grant is stored and read field by field, with the name of its scope.
pub proof fn law_grants_read_as_stored(c: CacheModel, row: GrantModel)
    ensures
        ({
            let g = cache::stored_grant(row);
            let r = c.read_grant(g, row.scope_type);
            &&& r.name == row.name && g.name == row.name
            &&& r.entitlement_name == row.entitlement_name && g.entitlement_name
                == row.entitlement_name
            &&& r.entitlement_short_name == row.entitlement_short_name && g.entitlement_short_name
                == row.entitlement_short_name
            &&& r.scope_type == row.scope_type && g.scope_type == row.scope_type.name_text()
            &&& r.scope_id == row.scope_id && g.scope_id == row.scope_id
            &&& r.scope_display_name == c.display_name(row.scope_type.name_text(), row.scope_id)
            &&& r.short_id == row.short_id && g.short_id == row.short_id
            &&& r.state == row.state && g.state == row.state
            &&& r.requested_duration_secs == row.requested_duration_secs
                && g.requested_duration_secs == row.requested_duration_secs
            &&& r.justification == row.justification && g.justification == row.justification
            &&& r.created_at == row.created_at && g.created_at == row.created_at
            &&& r.activated_at == row.activated_at && g.activated_at == row.activated_at
            &&& r.expires_at == row.expires_at && g.expires_at == row.expires_at
            &&& r.last_polled_at == row.last_polled_at && g.last_polled_at == row.last_polled_at
            &&& r.raw_json == row.raw_json && g.raw_json == row.raw_json
        }),
{
}

/// Storing a row leaves the other rows and the other tables alone.
pub proof fn law_storing_leaves_the_rest(
    c: CacheModel,
    e: EntitlementModel,
    g: GrantModel,
    other: Seq<char>,
)
    requires
        c.wf(),
        other != e.name,
        other != g.name,
    ensures
        table::get(c.with_entitlement(e).entitlements, other) == table::get(c.entitlements, other),
        table::get(c.with_grant(g).grants, other) == table::get(c.grants, other),
        c.with_entitlement(e).grants == c.grants,
        c.with_grant(g).entitlements == c.entitlements,
        c.with_entitlement(e).meta == c.meta,
        c.with_grant(g).meta == c.meta,
        c.with_entitlement(e).projects == c.projects,
        c.with_grant(g).projects == c.projects,
{
    let s = cache::stored_entitlement(e, c.last_used(e.name));
    table::lemma_stored(c.entitlements, s);
    assert(table::get(table::stored(c.entitlements, s), other) == table::get(
        c.entitlements,
        other,
    ));
    let t = cache::stored_grant(g);
    table::lemma_stored(c.grants, t);
    assert(table::get(table::stored(c.grants, t), other) == table::get(c.grants, other));
}

/// A use changes nothing of an entitlement but the time of its last use.
pub proof fn law_use_changes_only_the_time(c: CacheModel, name: Seq<char>, ts: i64)
    requires
        c.wf(),
    ensures
        table::get(c.entitlements, name) matches Some(e) ==> (table::get(
            c.with_use(name, ts).entitlements,
            name,
        ) matches Some(u) && u.last_used_at == Some(ts) && u.name == e.name && u.scope_type
            == e.scope_type && u.scope_id == e.scope_id && u.short_name == e.short_name
            && u.max_request_duration_secs == e.max_request_duration_secs
            && u.justification_required == e.justification_required && u.approvers_json
            == e.approvers_json && u.roles_json == e.roles_json && u.raw_json == e.raw_json
            && u.fetched_at == e.fetched_at),
        c.with_use(name, ts).grants == c.grants,
{
    if table::holds(c.entitlements, name) {
        table::lemma_slot(c.entitlements, name);
        let e = table::get(c.entitlements, name)->0;
        table::lemma_stored(
            c.entitlements,
            StoredEntitlementModel { last_used_at: Some(ts), ..e },
        );
    }
}

/// A poll changes nothing of a grant but its state and its times.
pub proof fn law_poll_changes_only_the_state(
    c: CacheModel,
    name: Seq<char>,
    state: Seq<char>,
    activated_at: Option<i64>,
    expires_at: Option<i64>,
    now: i64,
)
    requires
        c.wf(),
    ensures
        table::get(c.grants, name) matches Some(g) ==> (table::get(
            c.with_poll(name, state, activated_at, expires_at, now).grants,
            name,
        ) matches Some(h) && h.name == g.name && h.entitlement_name == g.entitlement_name
            && h.entitlement_short_name == g.entitlement_short_name && h.scope_type == g.scope_type
            && h.scope_id == g.scope_id && h.short_id == g.short_id && h.requested_duration_secs
            == g.requested_duration_secs && h.justification == g.justification && h.created_at
            == g.created_at && h.raw_json == g.raw_json),
        c.with_poll(name, state, activated_at, expires_at, now).entitlements == c.entitlements,
{
    if table::holds(c.grants, name) {
        table::lemma_slot(c.grants, name);
        let g = table::get(c.grants, name)->0;
        table::lemma_stored(c.grants, cache::polled(g, state, activated_at, expires_at, now));
    }
}

/// Entitlements that were used at one time, or never, are listed by scope, by
/// scope id and by short name.
pub proof fn law_listing_ties(s: Seq<StoredEntitlementModel>, k: int, l: int)
    requires
        0 <= k < l < cache::listed_order(s).len(),
        s[cache::listed_order(s)[k]].last_used_at == s[cache::listed_order(s)[l]].last_used_at,
    ensures
        ({
            let a = s[cache::listed_order(s)[k]];
            let b = s[cache::listed_order(s)[l]];
            &&& !text::text_before(b.scope_type, a.scope_type)
            &&& a.scope_type == b.scope_type ==> !text::text_before(b.scope_id, a.scope_id)
            &&& a.scope_type == b.scope_type && a.scope_id == b.scope_id ==> !text::text_before(
                b.short_name,
                a.short_name,
            )
        }),
{
    law_listing_order(s);
    let places = cache::listed_order(s);
    let a = s[places[k]];
    let b = s[places[l]];
    assert(cache::listed_leq(s, places[k], places[l]));
    cache::lemma_listed_before(a, b);
    text::lemma_before_irreflexive(a.scope_type);
    text::lemma_before_irreflexive(a.scope_id);
    text::lemma_before_irreflexive(a.short_name);
    if a.scope_type != b.scope_type {
        text::lemma_before_total(a.scope_type, b.scope_type);
    } else if a.scope_id != b.scope_id {
        text::lemma_before_total(a.scope_id, b.scope_id);
    }
}

/// Every entitlement is listed once, as it is read, the one used last first.
pub proof fn law_listing_holds_every_entitlement(c: CacheModel)
    requires
        forall|i: int|
            0 <= i < c.entitlements.len() ==> Scope::named(
                (#[trigger] c.entitlements[i]).scope_type,
            ) is Some,
    ensures
        c.entitlement_listing().len() == c.entitlements.len(),
        forall|i: int|
            0 <= i < c.entitlements.len() ==> c.entitlement_listing().contains(
                c.read_entitlement(
                    #[trigger] c.entitlements[i],
                    Scope::named(c.entitlements[i].scope_type)->0,
                ),
            ),
        forall|k: int, l: int|
            0 <= k < l < c.entitlement_listing().len() && (
            #[trigger] c.entitlement_listing()[l]).last_used_at is Some ==> (
            #[trigger] c.entitlement_listing()[k]).last_used_at is Some
                && c.entitlement_listing()[k].last_used_at->0
                >= c.entitlement_listing()[l].last_used_at->0,
{
    let s = c.entitlements;
    let places = cache::listed_order(s);
    let out = c.entitlement_listing();
    law_listing_order(s);
    assert forall|i: int| 0 <= i < s.len() implies out.contains(
        c.read_entitlement(#[trigger] s[i], Scope::named(s[i].scope_type)->0),
    ) by {
        assert(places.contains(i));
        let k = choose|k: int| 0 <= k < places.len() && places[k] == i;
        assert(out[k] == c.read_entitlement(s[i], Scope::named(s[i].scope_type)->0));
    }
    assert forall|k: int, l: int|
        0 <= k < l < out.len() && (#[trigger] out[l]).last_used_at is Some implies (
    #[trigger] out[k]).last_used_at is Some && out[k].last_used_at->0 >= out[l].last_used_at->0 by {
        assert(s[places[l]].last_used_at is Some);
        assert(s[places[k]].last_used_at is Some);
    }
}

/// A grant that is not over is tracked; one that is over is tracked while it
/// expired at the cutoff or later.
pub proof fn law_tracking_goes_by_state(g: StoredGrantModel, state: StateModel, cutoff: int)
    requires
        g.state == state.shown(),
    ensures
        !state.terminal() ==> cache::in_strip(g, cutoff),
        state.terminal() ==> (cache::in_strip(g, cutoff) <==> g.expires_at is Some
            && g.expires_at->0 >= cutoff),
{
    state.law_read_back();
    lemma_final_names();
    if let StateModel::Unknown(name) = state {
        reveal_strlit("Unknown:");
        assert(g.state[0] == 'U');
    }
}

proof fn lemma_final_names()
    ensures
        "Denied"@[0] == 'D' && "Denied"@.len() == 6,
        "Expired"@[0] == 'E' && "Expired"@.len() == 7,
        "Revoked"@[0] == 'R' && "Revoked"@.len() == 7 && "Revoked"@[1] == 'e',
        "Ended"@[0] == 'E' && "Ended"@.len() == 5 && "Ended"@[1] == 'n',
        "Withdrawn"@[0] == 'W' && "Withdrawn"@.len() == 9 && "Withdrawn"@[1] == 'i',
        "ActivationFailed"@[0] == 'A' && "ActivationFailed"@.len() == 16,
        "DENIED"@[0] == 'D' && "DENIED"@[1] == 'E',
        "EXPIRED"@[0] == 'E' && "EXPIRED"@[1] == 'X',
        "REVOKED"@[0] == 'R' && "REVOKED"@[1] == 'E',
        "ENDED"@[0] == 'E' && "ENDED"@[1] == 'N',
        "WITHDRAWN"@[0] == 'W' && "WITHDRAWN"@[1] == 'I',
        "ACTIVATION_FAILED"@[0] == 'A' && "ACTIVATION_FAILED"@[1] == 'C',
        "Requested"@[0] == 'R' && "Requested"@.len() == 9,
        "ApprovalAwaited"@[0] == 'A' && "ApprovalAwaited"@.len() == 15,
        "Scheduled"@[0] == 'S',
        "Activating"@[0] == 'A' && "Activating"@.len() == 10,
        "Active"@[0] == 'A' && "Active"@.len() == 6,
        "Revoking"@[0] == 'R' && "Revoking"@.len() == 8,
        "Withdrawing"@[0] == 'W' && "Withdrawing"@.len() == 11,
        "ACTIVATION_FAILED"@.len() == 17,
        "REVOKED"@.len() == 7,
        "WITHDRAWN"@.len() == 9,
{
    reveal_strlit("Denied");
    reveal_strlit("Expired");
    reveal_strlit("Revoked");
    reveal_strlit("Ended");
    reveal_strlit("Withdrawn");
    reveal_strlit("ActivationFailed");
    reveal_strlit("DENIED");
    reveal_strlit("EXPIRED");
    reveal_strlit("REVOKED");
    reveal_strlit("ENDED");
    reveal_strlit("WITHDRAWN");
    reveal_strlit("ACTIVATION_FAILED");
    reveal_strlit("Requested");
    reveal_strlit("ApprovalAwaited");
    reveal_strlit("Scheduled");
    reveal_strlit("Activating");
    reveal_strlit("Active");
    reveal_strlit("Revoking");
    reveal_strlit("Withdrawing");
}

/// The live strip holds, as they are read, exactly the grants that are not over
/// and those that expired within the last hour, the newest first.
pub proof fn law_strip_is_the_last_hour(c: CacheModel, now: i64, i: int, state: StateModel)
    requires
        forall|j: int|
            0 <= j < c.grants.len() ==> Scope::named((#[trigger] c.grants[j]).scope_type) is Some,
        0 <= i < c.grants.len(),
        c.grants[i].state == state.shown(),
    ensures
        (!state.terminal() || (c.grants[i].expires_at matches Some(t) && t >= now - 3600))
            ==> c.grant_listing(now).contains(
            c.read_grant(c.grants[i], Scope::named(c.grants[i].scope_type)->0),
        ),
        forall|k: int|
            0 <= k < c.grant_listing(now).len() && (#[trigger] c.grant_listing(now)[k]).state
                == state.shown() && state.terminal() ==> c.grant_listing(
                now,
            )[k].expires_at is Some && c.grant_listing(now)[k].expires_at->0 >= now - 3600,
        forall|k: int, l: int|
            0 <= k < l < c.grant_listing(now).len() ==> (
            #[trigger] c.grant_listing(now)[k]).created_at >= (
            #[trigger] c.grant_listing(now)[l]).created_at,
{
    let s = c.grants;
    let cutoff = now - cache::FRESH_TERMINAL_WINDOW_SECS;
    let places = cache::tracked_order(s, cutoff);
    let out = c.grant_listing(now);
    law_strip_order(s, cutoff);
    assert forall|k: int| 0 <= k < places.len() implies 0 <= #[trigger] places[k] < s.len()
        && cache::in_strip(s[places[k]], cutoff) by {
        assert(places.contains(places[k]));
    }
    assert(out.len() == places.len());
    law_tracking_goes_by_state(s[i], state, cutoff);
    if cache::in_strip(s[i], cutoff) {
        assert(places.contains(i));
        let k = choose|k: int| 0 <= k < places.len() && places[k] == i;
        assert(out[k] == c.read_grant(s[i], Scope::named(s[i].scope_type)->0));
    }
    assert forall|k: int|
        0 <= k < out.len() && (#[trigger] out[k]).state == state.shown()
            && state.terminal() implies out[k].expires_at is Some && out[k].expires_at->0 >= now
        - 3600 by {
        law_tracking_goes_by_state(s[places[k]], state, cutoff);
    }
    assert forall|k: int, l: int| 0 <= k < l < out.len() implies (#[trigger] out[k]).created_at >= (
    #[trigger] out[l]).created_at by {
        assert(s[places[k]].created_at >= s[places[l]].created_at);
    }
}

/// An active grant is marked as expired once its time has run out, and nothing
/// else changes.
pub proof fn law_only_stale_grants_expire(c: CacheModel, now: i64, i: int)
    requires
        0 <= i < c.grants.len(),
    ensures
        c.with_expiry(now).grants.len() == c.grants.len(),
        ({
            let (g, h) = (c.grants[i], c.with_expiry(now).grants[i]);
            &&& g.state == StateModel::Active.shown() && g.expires_at is Some && g.expires_at->0
                <= now ==> h.state == StateModel::Expired.shown()
            &&& g.state != StateModel::Active.shown() ==> h == g
            &&& g.expires_at is None ==> h == g
            &&& g.expires_at is Some && g.expires_at->0 > now ==> h == g
            &&& h == (StoredGrantModel { state: h.state, ..g })
        }),
        c.with_expiry(now).entitlements == c.entitlements,
        c.with_expiry(now).meta == c.meta,
{
}

/// A grant counts as over under the name of each of the six states that end one,
/// in the spelling that is shown and in that of the service.
pub proof fn law_names_of_what_is_over(g: StoredGrantModel, cutoff: int)
    requires
        g.expires_at is None,
    ensures
        g.state == "Denied"@ || g.state == "DENIED"@ ==> !cache::in_strip(g, cutoff),
        g.state == "Expired"@ || g.state == "EXPIRED"@ ==> !cache::in_strip(g, cutoff),
        g.state == "Revoked"@ || g.state == "REVOKED"@ ==> !cache::in_strip(g, cutoff),
        g.state == "Ended"@ || g.state == "ENDED"@ ==> !cache::in_strip(g, cutoff),
        g.state == "Withdrawn"@ || g.state == "WITHDRAWN"@ ==> !cache::in_strip(g, cutoff),
        g.state == "ActivationFailed"@ || g.state == "ACTIVATION_FAILED"@ ==> !cache::in_strip(
            g,
            cutoff,
        ),
        !cache::in_strip(g, cutoff) ==> g.state[0] == 'D' || g.state[0] == 'E' || g.state[0] == 'R'
            || g.state[0] == 'W' || g.state[0] == 'A',
{
    lemma_final_names();
}

} // verus!
