//! Refreshing the cache: when it is due, which scopes are searched, and what
//! is stored and reported on the way.
use vstd::prelude::*;
use vstd::string::*;
use crate::backend::{ScopeTarget, TargetModel};
use crate::cache;
use crate::cache::rows;
use crate::cache::rows::{EntitlementModel, FolderModel, OrganizationModel, ProjectModel};
use crate::cache::schema;
use crate::cache::{
    Cache, CacheModel, EntitlementRow, FolderRow, OrganizationRow, ProjectRow, meta_keys, now_unix,
};
use crate::gcp::Scope;
use crate::table;
use crate::text;
use crate::text::contains;

verus! {

/// From this age on the screen opens at once, and a refresh runs behind it.
pub const SOFT_TTL_SECS: i64 = 1800;

/// From this age on the data is too old to trust, and the screen waits for a
/// refresh.
pub const HARD_TTL_SECS: i64 = 86400;

/// How many scopes are searched at the same time.
pub const FANOUT: usize = 20;

/// Which kinds of scope a refresh searches.
#[derive(Debug, Clone, Copy, PartialEq, Eq, Structural)]
pub struct RefreshOptions {
    pub projects: bool,
    pub folders: bool,
    pub organizations: bool,
}

impl Default for RefreshOptions {
    fn default() -> (r: Self)
        ensures
            r == (RefreshOptions { projects: true, folders: true, organizations: true }),
    {
        RefreshOptions { projects: true, folders: true, organizations: true }
    }
}

impl RefreshOptions {
    /// Entitlements of this scope are searched and shown.
    pub open spec fn includes_spec(&self, scope: Scope) -> bool {
        match scope {
            Scope::Project => self.projects,
            Scope::Folder => self.folders,
            Scope::Organization => self.organizations,
        }
    }

    /// Tells whether entitlements of this scope are wanted. This decides what
    /// is searched, and also what is shown of the cache: a scope that is
    /// skipped stays hidden even where an earlier run filled it.
    pub fn includes(&self, scope: Scope) -> (r: bool)
        ensures
            r == self.includes_spec(scope),
            scope is Project ==> r == self.projects,
            scope is Folder ==> r == self.folders,
            scope is Organization ==> r == self.organizations,
    {
        match scope {
            Scope::Project => self.projects,
            Scope::Folder => self.folders,
            Scope::Organization => self.organizations,
        }
    }

    /// All scopes but those that are to be skipped.
    pub fn skipping(no_projects: bool, no_folders: bool, no_orgs: bool) -> (r: Self)
        ensures
            r == (RefreshOptions {
                projects: !no_projects,
                folders: !no_folders,
                organizations: !no_orgs,
            }),
    {
        RefreshOptions { projects: !no_projects, folders: !no_folders, organizations: !no_orgs }
    }
}

/// What a refresh reports.
#[derive(Debug)]
pub enum RefreshEvent {
    Started,
    EntitlementUpserted(EntitlementRow),
    Finished { total: usize, error: Option<String> },
}

/// What a refresh reports, as characters.
pub ghost enum EventModel {
    Started,
    EntitlementUpserted(EntitlementModel),
    Finished { total: nat, error: Option<Seq<char>> },
}

impl View for RefreshEvent {
    type V = EventModel;

    open spec fn view(&self) -> EventModel {
        match self {
            RefreshEvent::Started => EventModel::Started,
            RefreshEvent::EntitlementUpserted(row) => EventModel::EntitlementUpserted(row@),
            RefreshEvent::Finished { total, error } => EventModel::Finished {
                total: *total as nat,
                error: error.deep_view(),
            },
        }
    }
}

// ---------------------------------------------------------------------------
// When a refresh is due
// ---------------------------------------------------------------------------

#[derive(Debug, Clone, Copy, PartialEq, Eq, Structural)]
pub enum Decision {
    /// The cache is fresh enough.
    Fresh,
    /// Show the cache, and refresh it behind the screen.
    Soft,
    /// The cache is too old or empty: refresh it before it is shown.
    Hard,
}

/// What to do about a cache that was scanned at a time, if ever.
pub open spec fn decision(scanned_at: Option<i64>, now: int) -> Decision {
    match scanned_at {
        None => Decision::Hard,
        Some(ts) => if now - ts >= HARD_TTL_SECS {
            Decision::Hard
        } else if now - ts >= SOFT_TTL_SECS {
            Decision::Soft
        } else {
            Decision::Fresh
        },
    }
}

/// Decides about a cache at a given time.
pub fn decide_at(cache: &Cache, now: i64) -> (r: Decision)
    ensures
        r == decision(cache@.timestamp(meta_keys::ENTITLEMENTS_SCANNED_AT@), now as int),
        cache@.timestamp("entitlements_scanned_at"@) is None ==> r == Decision::Hard,
        cache@.timestamp("entitlements_scanned_at"@) matches Some(ts) ==> {
            &&& r == Decision::Fresh <==> now - ts < 1800
            &&& r == Decision::Hard <==> now - ts >= 86400
        },
{
    match cache.meta_timestamp(meta_keys::ENTITLEMENTS_SCANNED_AT) {
        None => Decision::Hard,
        Some(ts) => {
            let age: i128 = now as i128 - ts as i128;
            if age >= HARD_TTL_SECS as i128 {
                Decision::Hard
            } else if age >= SOFT_TTL_SECS as i128 {
                Decision::Soft
            } else {
                Decision::Fresh
            }
        },
    }
}

/// Decides about a cache, at the time that the clock shows.
pub fn decide(cache: &Cache) -> (r: Decision)
    ensures
        exists|now: i64| #[trigger]
            schema::clock_reads(now) && r == decision(
                cache@.timestamp(meta_keys::ENTITLEMENTS_SCANNED_AT@),
                now as int,
            ),
{
    let now: i64 = now_unix();
    decide_at(cache, now)
}

// ---------------------------------------------------------------------------
// A run
// ---------------------------------------------------------------------------

/// The cache with rows of one kind stored, one after the other.
pub open spec fn with_projects(c: CacheModel, s: Seq<ProjectModel>) -> CacheModel
    decreases s.len(),
{
    if s.len() == 0 {
        c
    } else {
        with_projects(c, s.drop_last()).with_project(s.last())
    }
}

pub open spec fn with_folders(c: CacheModel, s: Seq<FolderModel>) -> CacheModel
    decreases s.len(),
{
    if s.len() == 0 {
        c
    } else {
        with_folders(c, s.drop_last()).with_folder(s.last())
    }
}

pub open spec fn with_organizations(c: CacheModel, s: Seq<OrganizationModel>) -> CacheModel
    decreases s.len(),
{
    if s.len() == 0 {
        c
    } else {
        with_organizations(c, s.drop_last()).with_organization(s.last())
    }
}

pub open spec fn with_entitlements(c: CacheModel, s: Seq<EntitlementModel>) -> CacheModel
    decreases s.len(),
{
    if s.len() == 0 {
        c
    } else {
        with_entitlements(c, s.drop_last()).with_entitlement(s.last())
    }
}

/// The scopes to search that were discovered with a list of rows.
pub open spec fn project_targets(s: Seq<ProjectModel>) -> Seq<TargetModel> {
    s.map_values(
        |p: ProjectModel| TargetModel {
            scope: Scope::Project,
            id: p.project_id,
            display_name: p.display_name,
        },
    )
}

pub open spec fn folder_targets(s: Seq<FolderModel>) -> Seq<TargetModel> {
    s.map_values(
        |f: FolderModel| TargetModel {
            scope: Scope::Folder,
            id: f.folder_id,
            display_name: f.display_name,
        },
    )
}

pub open spec fn organization_targets(s: Seq<OrganizationModel>) -> Seq<TargetModel> {
    s.map_values(
        |o: OrganizationModel| TargetModel {
            scope: Scope::Organization,
            id: o.org_id,
            display_name: o.display_name,
        },
    )
}

/// The models of a list of scopes.
pub open spec fn target_models(v: Seq<ScopeTarget>) -> Seq<TargetModel> {
    Seq::new(v.len(), |i: int| v[i]@)
}

/// The models of a list of events.
pub open spec fn event_models(v: Seq<RefreshEvent>) -> Seq<EventModel> {
    Seq::new(v.len(), |i: int| v[i]@)
}

/// A refresh: the scopes that were discovered, and how many entitlements were
/// found in them.
#[derive(Debug)]
pub struct RefreshRun {
    pub options: RefreshOptions,
    pub scopes: Vec<ScopeTarget>,
    pub count: usize,
}

/// A refresh, as characters.
pub ghost struct RunModel {
    pub options: RefreshOptions,
    pub scopes: Seq<TargetModel>,
    pub count: nat,
}

impl View for RefreshRun {
    type V = RunModel;

    open spec fn view(&self) -> RunModel {
        RunModel {
            options: self.options,
            scopes: target_models(self.scopes@),
            count: self.count as nat,
        }
    }
}

/// A scope, where the options include it.
pub open spec fn if_wanted(options: RefreshOptions, scope: Scope) -> Seq<Scope> {
    if options.includes_spec(scope) {
        seq![scope]
    } else {
        Seq::empty()
    }
}

/// The scopes whose resources a refresh lists: those that the options include,
/// projects first and organizations last.
pub open spec fn listed_scopes(options: RefreshOptions) -> Seq<Scope> {
    if_wanted(options, Scope::Project) + if_wanted(options, Scope::Folder) + if_wanted(
        options,
        Scope::Organization,
    )
}

/// A refresh lists each scope that is wanted once, and no other.
pub proof fn law_listings_follow_options(options: RefreshOptions, scope: Scope)
    ensures
        listed_scopes(options).contains(scope) <==> options.includes_spec(scope),
        listed_scopes(options).no_duplicates(),
{
    let s = listed_scopes(options);
    let n = if_wanted(options, Scope::Project).len() as int;
    let k = n + if_wanted(options, Scope::Folder).len();
    if options.includes_spec(scope) {
        let at = if scope == Scope::Project {
            0
        } else if scope == Scope::Folder {
            n
        } else {
            k
        };
        assert(s[at] == scope);
    }
}

impl RefreshRun {
    /// A refresh that has found nothing yet.
    pub fn new(options: RefreshOptions) -> (r: Self)
        ensures
            r@ == (RunModel { options, scopes: Seq::empty(), count: 0 }),
    {
        let r = RefreshRun { options, scopes: Vec::new(), count: 0 };
        assert(r@.scopes =~= Seq::<TargetModel>::empty());
        r
    }

    /// The scopes whose resources are to be listed, in this order.
    pub fn listings(&self) -> (r: Vec<Scope>)
        ensures
            r@ == listed_scopes(self.options),
            r@.contains(Scope::Project) <==> self.options.projects,
            r@.contains(Scope::Folder) <==> self.options.folders,
            r@.contains(Scope::Organization) <==> self.options.organizations,
    {
        proof {
            law_listings_follow_options(self.options, Scope::Project);
            law_listings_follow_options(self.options, Scope::Folder);
            law_listings_follow_options(self.options, Scope::Organization);
        }
        let mut r: Vec<Scope> = Vec::new();
        if self.options.includes(Scope::Project) {
            r.push(Scope::Project);
        }
        if self.options.includes(Scope::Folder) {
            r.push(Scope::Folder);
        }
        if self.options.includes(Scope::Organization) {
            r.push(Scope::Organization);
        }
        assert(r@ =~= listed_scopes(self.options));
        r
    }

    /// Takes in the projects that were listed: stores them, notes the time,
    /// and adds them to the scopes to search.
    pub fn discover_projects(&mut self, cache: &mut Cache, found: &Vec<ProjectRow>, now: i64)
        requires
            old(cache).wf(),
        ensures
            final(cache).wf(),
            final(cache)@ == with_projects(old(cache)@, cache::models(found@)).with_timestamp(
                meta_keys::PROJECTS_SCANNED_AT@,
                now,
            ),
            final(self)@ == (RunModel {
                scopes: old(self)@.scopes + project_targets(cache::models(found@)),
                ..old(self)@
            }),
    {
        let ghost all = cache::models(found@);
        let ghost c0 = cache@;
        let ghost prior = self@.scopes;
        let mut i: usize = 0;
        proof {
            assert(all.take(0) =~= Seq::empty());
            assert(target_models(self.scopes@) =~= prior + project_targets(all.take(0)));
        }
        while i < found.len()
            invariant
                i <= found.len(),
                cache.wf(),
                all == cache::models(found@),
                cache@ == with_projects(c0, all.take(i as int)),
                target_models(self.scopes@) == prior + project_targets(all.take(i as int)),
                self.options == old(self).options,
                self.count == old(self).count,
            decreases found.len() - i,
        {
            let row: &ProjectRow = &found[i];
            let ghost before = target_models(self.scopes@);
            assert(all[i as int] == row@);
            assert(all.take(i + 1).drop_last() =~= all.take(i as int));
            cache.upsert_project(row);
            self.scopes.push(
                ScopeTarget {
                    scope: Scope::Project,
                    id: row.project_id.as_str().to_owned(),
                    display_name: row.display_name.clone(),
                },
            );
            proof {
                let t = self.scopes@[self.scopes@.len() - 1]@;
                assert(target_models(self.scopes@) =~= before.push(t));
                assert(project_targets(all.take(i + 1)) =~= project_targets(
                    all.take(i as int),
                ).push(t));
            }
            i += 1;
        }
        assert(all.take(i as int) =~= all);
        cache.set_meta_timestamp(meta_keys::PROJECTS_SCANNED_AT, now);
    }

    /// Takes in the folders that were listed.
    pub fn discover_folders(&mut self, cache: &mut Cache, found: &Vec<FolderRow>, now: i64)
        requires
            old(cache).wf(),
        ensures
            final(cache).wf(),
            final(cache)@ == with_folders(old(cache)@, cache::models(found@)).with_timestamp(
                meta_keys::FOLDERS_SCANNED_AT@,
                now,
            ),
            final(self)@ == (RunModel {
                scopes: old(self)@.scopes + folder_targets(cache::models(found@)),
                ..old(self)@
            }),
    {
        let ghost all = cache::models(found@);
        let ghost c0 = cache@;
        let ghost prior = self@.scopes;
        let mut i: usize = 0;
        proof {
            assert(all.take(0) =~= Seq::empty());
            assert(target_models(self.scopes@) =~= prior + folder_targets(all.take(0)));
        }
        while i < found.len()
            invariant
                i <= found.len(),
                cache.wf(),
                all == cache::models(found@),
                cache@ == with_folders(c0, all.take(i as int)),
                target_models(self.scopes@) == prior + folder_targets(all.take(i as int)),
                self.options == old(self).options,
                self.count == old(self).count,
            decreases found.len() - i,
        {
            let row: &FolderRow = &found[i];
            let ghost before = target_models(self.scopes@);
            assert(all[i as int] == row@);
            assert(all.take(i + 1).drop_last() =~= all.take(i as int));
            cache.upsert_folder(row);
            self.scopes.push(
                ScopeTarget {
                    scope: Scope::Folder,
                    id: row.folder_id.as_str().to_owned(),
                    display_name: row.display_name.clone(),
                },
            );
            proof {
                let t = self.scopes@[self.scopes@.len() - 1]@;
                assert(target_models(self.scopes@) =~= before.push(t));
                assert(folder_targets(all.take(i + 1)) =~= folder_targets(
                    all.take(i as int),
                ).push(t));
            }
            i += 1;
        }
        assert(all.take(i as int) =~= all);
        cache.set_meta_timestamp(meta_keys::FOLDERS_SCANNED_AT, now);
    }

    /// Takes in the organizations that were listed.
    pub fn discover_organizations(
        &mut self,
        cache: &mut Cache,
        found: &Vec<OrganizationRow>,
        now: i64,
    )
        requires
            old(cache).wf(),
        ensures
            final(cache).wf(),
            final(cache)@ == with_organizations(old(cache)@, cache::models(found@)).with_timestamp(
                meta_keys::ORGANIZATIONS_SCANNED_AT@,
                now,
            ),
            final(self)@ == (RunModel {
                scopes: old(self)@.scopes + organization_targets(cache::models(found@)),
                ..old(self)@
            }),
    {
        let ghost all = cache::models(found@);
        let ghost c0 = cache@;
        let ghost prior = self@.scopes;
        let mut i: usize = 0;
        proof {
            assert(all.take(0) =~= Seq::empty());
            assert(target_models(self.scopes@) =~= prior + organization_targets(all.take(0)));
        }
        while i < found.len()
            invariant
                i <= found.len(),
                cache.wf(),
                all == cache::models(found@),
                cache@ == with_organizations(c0, all.take(i as int)),
                target_models(self.scopes@) == prior + organization_targets(all.take(i as int)),
                self.options == old(self).options,
                self.count == old(self).count,
            decreases found.len() - i,
        {
            let row: &OrganizationRow = &found[i];
            let ghost before = target_models(self.scopes@);
            assert(all[i as int] == row@);
            assert(all.take(i + 1).drop_last() =~= all.take(i as int));
            cache.upsert_organization(row);
            self.scopes.push(
                ScopeTarget {
                    scope: Scope::Organization,
                    id: row.org_id.as_str().to_owned(),
                    display_name: row.display_name.clone(),
                },
            );
            proof {
                let t = self.scopes@[self.scopes@.len() - 1]@;
                assert(target_models(self.scopes@) =~= before.push(t));
                assert(organization_targets(all.take(i + 1)) =~= organization_targets(
                    all.take(i as int),
                ).push(t));
            }
            i += 1;
        }
        assert(all.take(i as int) =~= all);
        cache.set_meta_timestamp(meta_keys::ORGANIZATIONS_SCANNED_AT, now);
    }

    /// Takes in the entitlements that the search of one scope found: stores
    /// and counts them, and reports each.
    pub fn absorb(&mut self, cache: &mut Cache, found: Vec<EntitlementRow>) -> (r: Vec<
        RefreshEvent,
    >)
        requires
            old(cache).wf(),
            old(self).count + found@.len() <= usize::MAX,
        ensures
            final(cache).wf(),
            final(cache)@ == with_entitlements(old(cache)@, rows::entitlement_models(found@)),
            final(self)@ == (RunModel {
                count: old(self)@.count + found@.len(),
                ..old(self)@
            }),
            event_models(r@) == rows::entitlement_models(found@).map_values(
                |e: EntitlementModel| EventModel::EntitlementUpserted(e),
            ),
            r@.len() == found@.len(),
            forall|i: int|
                0 <= i < found@.len() ==> (#[trigger] r@[i] matches RefreshEvent::EntitlementUpserted(
                    row,
                ) && row@ == found@[i]@),
            final(self).count == old(self).count + found@.len(),
            final(self).options == old(self).options,
    {
        let ghost all = rows::entitlement_models(found@);
        let ghost c0 = cache@;
        let mut out: Vec<RefreshEvent> = Vec::new();
        let mut i: usize = 0;
        assert(all.take(0) =~= Seq::empty());
        while i < found.len()
            invariant
                i <= found.len(),
                cache.wf(),
                all == rows::entitlement_models(found@),
                cache@ == with_entitlements(c0, all.take(i as int)),
                out.len() == i,
                forall|k: int|
                    0 <= k < i ==> (#[trigger] out@[k])@ == EventModel::EntitlementUpserted(all[k]),
                forall|k: int|
                    0 <= k < i ==> (#[trigger] out@[k] matches RefreshEvent::EntitlementUpserted(row)
                        && row@ == found@[k]@),
                self.options == old(self).options,
                self.scopes@ == old(self).scopes@,
                self.count == old(self).count + i,
                old(self).count + found@.len() <= usize::MAX,
            decreases found.len() - i,
        {
            let row: &EntitlementRow = &found[i];
            assert(all[i as int] == row@);
            assert(all.take(i + 1).drop_last() =~= all.take(i as int));
            cache.upsert_entitlement(row);
            self.count = self.count + 1;
            out.push(RefreshEvent::EntitlementUpserted(row.clone()));
            i += 1;
        }
        assert(all.take(i as int) =~= all);
        assert(event_models(out@) =~= all.map_values(
            |e: EntitlementModel| EventModel::EntitlementUpserted(e),
        ));
        out
    }

    /// Notes that the search is over, and reports how many entitlements it
    /// found.
    pub fn finish(&self, cache: &mut Cache, now: i64) -> (r: RefreshEvent)
        requires
            old(cache).wf(),
        ensures
            final(cache).wf(),
            final(cache)@ == old(cache)@.with_timestamp(
                meta_keys::ENTITLEMENTS_SCANNED_AT@,
                now,
            ),
            r@ == (EventModel::Finished { total: self@.count, error: None }),
            r matches RefreshEvent::Finished { total, error } && total == self.count
                && error is None,
            final(cache)@.timestamp("entitlements_scanned_at"@) == Some(now),
    {
        proof {
            cache::laws::law_timestamp_reads_back(cache@, "entitlements_scanned_at"@, now);
        }
        cache.set_meta_timestamp(meta_keys::ENTITLEMENTS_SCANNED_AT, now);
        RefreshEvent::Finished { total: self.count, error: None }
    }
}

/// The report of a refresh that failed.
pub fn failed(message: String) -> (r: RefreshEvent)
    ensures
        r@ == (EventModel::Finished { total: 0, error: Some(message@) }),
        r matches RefreshEvent::Finished { total, error: Some(e) } && total == 0 && e@ == message@,
{
    RefreshEvent::Finished { total: 0, error: Some(message) }
}

/// A failed search that is not worth a warning: a scope without access to the
/// service.
pub fn is_quiet_failure(message: &str) -> (r: bool)
    ensures
        r == text::has_text(message@, "PERMISSION_DENIED"@),
{
    contains(message, "PERMISSION_DENIED")
}

impl Clone for RefreshEvent {
    fn clone(&self) -> (r: Self)
        ensures
            r@ == self@,
    {
        match self {
            RefreshEvent::Started => RefreshEvent::Started,
            RefreshEvent::EntitlementUpserted(row) => RefreshEvent::EntitlementUpserted(
                row.clone(),
            ),
            RefreshEvent::Finished { total, error } => RefreshEvent::Finished {
                total: *total,
                error: error.clone(),
            },
        }
    }
}

// ---------------------------------------------------------------------------
// Laws
// ---------------------------------------------------------------------------

/// How urgent a refresh is.
pub open spec fn urgency(d: Decision) -> int {
    match d {
        Decision::Fresh => 0,
        Decision::Soft => 1,
        Decision::Hard => 2,
    }
}

/// A cache never gets fresher by waiting.
pub proof fn law_decision_grows_with_age(scanned_at: Option<i64>, now: int, later: int)
    requires
        now <= later,
    ensures
        urgency(decision(scanned_at, now)) <= urgency(decision(scanned_at, later)),
{
}

/// Right after a scan nothing is due.
pub proof fn law_fresh_after_scan(c: CacheModel, now: i64)
    requires
        c.wf(),
    ensures
        decision(
            c.with_timestamp(
                meta_keys::ENTITLEMENTS_SCANNED_AT@,
                now,
            ).timestamp(meta_keys::ENTITLEMENTS_SCANNED_AT@),
            now as int,
        ) == Decision::Fresh,
{
    cache::laws::law_timestamp_reads_back(c, meta_keys::ENTITLEMENTS_SCANNED_AT@, now);
}

/// A cache that was never scanned is refreshed before it is shown.
pub proof fn law_empty_cache_is_hard(now: int)
    ensures
        decision(
            CacheModel::empty().timestamp(meta_keys::ENTITLEMENTS_SCANNED_AT@),
            now,
        ) == Decision::Hard,
{
}

/// A refresh never changes when an entitlement was last used, and never
/// touches a grant.
pub proof fn law_refresh_keeps_use_and_grants(
    c: CacheModel,
    found: Seq<EntitlementModel>,
    name: Seq<char>,
)
    requires
        c.wf(),
    ensures
        with_entitlements(c, found).wf(),
        with_entitlements(c, found).last_used(name) == c.last_used(name),
        with_entitlements(c, found).grants == c.grants,
    decreases found.len(),
{
    if found.len() > 0 {
        law_refresh_keeps_use_and_grants(c, found.drop_last(), name);
        let d = with_entitlements(c, found.drop_last());
        cache::laws::law_upsert_keeps_last_used(d, found.last(), name);
        crate::table::lemma_stored(
            d.entitlements,
            cache::stored_entitlement(found.last(), d.last_used(found.last().name)),
        );
    }
}

/// A project that was discovered is searched under its own id and name.
pub proof fn law_projects_are_searched(s: Seq<ProjectModel>, i: int)
    requires
        0 <= i < s.len(),
    ensures
        project_targets(s).len() == s.len(),
        project_targets(s)[i].scope == Scope::Project,
        project_targets(s)[i].id == s[i].project_id,
        project_targets(s)[i].display_name == s[i].display_name,
{
}

/// A project that was discovered gives its name to its scope.
pub proof fn law_discovered_projects_are_named(c: CacheModel, s: Seq<ProjectModel>, row: ProjectModel)
    requires
        c.wf(),
    ensures
        with_projects(c, s).wf(),
        with_projects(c, s).grants == c.grants,
        with_projects(c, s).entitlements == c.entitlements,
        with_projects(c, s.push(row)).display_name(Scope::Project.name_text(), row.project_id)
            == row.display_name,
    decreases s.len(),
{
    if s.len() > 0 {
        law_discovered_projects_are_named(c, s.drop_last(), s.last());
        table::lemma_stored(with_projects(c, s.drop_last()).projects, s.last());
        assert(s.drop_last().push(s.last()) =~= s);
    }
    assert(s.push(row).drop_last() =~= s);
    cache::laws::law_stored_project_is_named(
        with_projects(c, s),
        row,
        Scope::Folder,
        row.project_id,
    );
}

/// A folder that was discovered is searched under its own id and name.
pub proof fn law_folders_are_searched(s: Seq<FolderModel>, i: int)
    requires
        0 <= i < s.len(),
    ensures
        folder_targets(s).len() == s.len(),
        folder_targets(s)[i].scope == Scope::Folder,
        folder_targets(s)[i].id == s[i].folder_id,
        folder_targets(s)[i].display_name == s[i].display_name,
{
}

/// A folder that was discovered gives its name to its scope.
pub proof fn law_discovered_folders_are_named(c: CacheModel, s: Seq<FolderModel>, row: FolderModel)
    requires
        c.wf(),
    ensures
        with_folders(c, s).wf(),
        with_folders(c, s).grants == c.grants,
        with_folders(c, s).entitlements == c.entitlements,
        with_folders(c, s.push(row)).display_name(Scope::Folder.name_text(), row.folder_id)
            == row.display_name,
    decreases s.len(),
{
    if s.len() > 0 {
        law_discovered_folders_are_named(c, s.drop_last(), s.last());
        table::lemma_stored(with_folders(c, s.drop_last()).folders, s.last());
        assert(s.drop_last().push(s.last()) =~= s);
    }
    assert(s.push(row).drop_last() =~= s);
    cache::laws::law_stored_folder_is_named(
        with_folders(c, s),
        row,
        Scope::Project,
        row.folder_id,
    );
}

/// A organization that was discovered is searched under its own id and name.
pub proof fn law_organizations_are_searched(s: Seq<OrganizationModel>, i: int)
    requires
        0 <= i < s.len(),
    ensures
        organization_targets(s).len() == s.len(),
        organization_targets(s)[i].scope == Scope::Organization,
        organization_targets(s)[i].id == s[i].org_id,
        organization_targets(s)[i].display_name == s[i].display_name,
{
}

/// A organization that was discovered gives its name to its scope.
pub proof fn law_discovered_organizations_are_named(c: CacheModel, s: Seq<OrganizationModel>, row: OrganizationModel)
    requires
        c.wf(),
    ensures
        with_organizations(c, s).wf(),
        with_organizations(c, s).grants == c.grants,
        with_organizations(c, s).entitlements == c.entitlements,
        with_organizations(c, s.push(row)).display_name(Scope::Organization.name_text(), row.org_id)
            == row.display_name,
    decreases s.len(),
{
    if s.len() > 0 {
        law_discovered_organizations_are_named(c, s.drop_last(), s.last());
        table::lemma_stored(with_organizations(c, s.drop_last()).organizations, s.last());
        assert(s.drop_last().push(s.last()) =~= s);
    }
    assert(s.push(row).drop_last() =~= s);
    cache::laws::law_stored_organization_is_named(
        with_organizations(c, s),
        row,
        Scope::Project,
        row.org_id,
    );
}

/// An entitlement that was found is stored under its name, with what was found
/// of it, and what was stored under other names stays.
pub proof fn law_found_entitlements_are_stored(
    c: CacheModel,
    found: Seq<EntitlementModel>,
    e: EntitlementModel,
    other: Seq<char>,
)
    requires
        c.wf(),
        other != e.name,
    ensures
        table::get(with_entitlements(c, found.push(e)).entitlements, e.name) matches Some(x) && {
            &&& x.short_name == e.short_name
            &&& x.scope_id == e.scope_id
            &&& Scope::named(x.scope_type) == Some(e.scope_type)
            &&& x.max_request_duration_secs == e.max_request_duration_secs
            &&& x.justification_required != 0 <==> e.justification_required
            &&& x.raw_json == e.raw_json
            &&& x.fetched_at == e.fetched_at
            &&& x.last_used_at == c.last_used(e.name)
        },
        table::get(with_entitlements(c, found.push(e)).entitlements, other) == table::get(
            with_entitlements(c, found).entitlements,
            other,
        ),
{
    let d = with_entitlements(c, found);
    law_refresh_keeps_use_and_grants(c, found, e.name);
    assert(found.push(e).drop_last() =~= found);
    let x = cache::stored_entitlement(e, d.last_used(e.name));
    table::lemma_stored(d.entitlements, x);
    assert(table::get(table::stored(d.entitlements, x), other) == table::get(
        d.entitlements,
        other,
    ));
    e.scope_type.law_names_read_back();
}

/// A cache is fresh for half an hour, and too old from a day on.
pub proof fn law_decision_by_age(ts: i64, now: int)
    ensures
        decision(Some(ts), now) == Decision::Fresh <==> now - ts < 30 * 60,
        decision(Some(ts), now) == Decision::Hard <==> now - ts >= 24 * 60 * 60,
        decision(None, now) == Decision::Hard,
{
}

/// The times of the scans and the versions are kept apart.
pub proof fn law_meta_keys_differ()
    ensures
        seq![
            meta_keys::PROJECTS_SCANNED_AT@,
            meta_keys::FOLDERS_SCANNED_AT@,
            meta_keys::ORGANIZATIONS_SCANNED_AT@,
            meta_keys::ENTITLEMENTS_SCANNED_AT@,
            meta_keys::CACHE_SCHEMA_VERSION@,
            meta_keys::STATE_SCHEMA_VERSION@,
        ].no_duplicates(),
{
    reveal_strlit("cache_schema_version");
    reveal_strlit("state_schema_version");
    reveal_strlit("projects_scanned_at");
    reveal_strlit("folders_scanned_at");
    reveal_strlit("organizations_scanned_at");
    reveal_strlit("entitlements_scanned_at");
    assert("cache_schema_version"@[0] == 'c' && "state_schema_version"@[0] == 's');
    assert("projects_scanned_at"@[0] == 'p' && "folders_scanned_at"@[0] == 'f');
    assert("organizations_scanned_at"@[0] == 'o' && "entitlements_scanned_at"@[0] == 'e');
}

} // verus!
