//! The per-account cache: entitlements, scopes and grants by key, and when
//! each was scanned.
//!
//! The cache lives in memory; whoever opens it loads the stored rows, and
//! stores them again after a change.
pub mod laws;
pub mod meta_keys;
pub mod rows;
pub mod schema;

pub use crate::cache::rows::{
    EntitlementRow, FolderRow, GrantRow, MetaRow, OrganizationRow, ProjectRow, StoredEntitlement,
    StoredGrant,
};
pub use crate::cache::schema::now_unix;
use crate::cache::rows::{
    EntitlementModel, FolderModel, GrantModel, MetaModel, OrganizationModel, ProjectModel,
    StoredEntitlementModel, StoredGrantModel,
};
use crate::gcp::{Scope, UnknownScope};
use crate::numbers;
use crate::numbers::{i64_text, parse_i64};
use crate::order;
use crate::order::Order;
use crate::table;
use crate::table::{Row, Table};
use crate::text;
use crate::text::before;
use vstd::prelude::*;
use vstd::relations::*;
use vstd::string::*;

verus! {

// ---------------------------------------------------------------------------
// Lists as JSON
// ---------------------------------------------------------------------------

/// The JSON text of a list of strings.
pub uninterp spec fn list_json(items: Seq<Seq<char>>) -> Option<Seq<char>>;

/// The list of strings that a JSON text holds.
pub uninterp spec fn json_list(s: Seq<char>) -> Option<Seq<Seq<char>>>;

/// `serde_json::to_string` on a list of strings. Its text depends on the list
/// alone; writing strings never fails, and the text reads back as the list.
#[verifier::external_body]
fn encode_list(items: &Vec<String>) -> (r: Option<String>)
    ensures
        r.deep_view() == list_json(items.deep_view()),
        r is Some,
        json_list(r->0@) == Some(items.deep_view()),
{
    serde_json::to_string(items).ok()
}

/// `serde_json::from_str` to a list of strings. What it reads depends on the
/// text alone; `None` where the text is no such list.
#[verifier::external_body]
fn decode_list(s: &str) -> (r: Option<Vec<String>>)
    ensures
        match r {
            Some(items) => json_list(s@) == Some(items.deep_view()),
            None => json_list(s@) is None,
        },
{
    serde_json::from_str(s).ok()
}

/// The text a list is stored as: its JSON, or the empty list's.
pub open spec fn encoded(items: Seq<Seq<char>>) -> Seq<char> {
    match list_json(items) {
        Some(s) => s,
        None => "[]"@,
    }
}

/// The list a stored text stands for: empty where it is no list.
pub open spec fn decoded(s: Seq<char>) -> Seq<Seq<char>> {
    match json_list(s) {
        Some(items) => items,
        None => Seq::empty(),
    }
}

fn encode(items: &Vec<String>) -> (r: String)
    ensures
        r@ == encoded(items.deep_view()),
        decoded(r@) == items.deep_view(),
{
    match encode_list(items) {
        Some(s) => s,
        None => "[]".to_owned(),
    }
}

fn decode(s: &str) -> (r: Vec<String>)
    ensures
        r.deep_view() == decoded(s@),
{
    match decode_list(s) {
        Some(items) => items,
        None => {
            let r: Vec<String> = Vec::new();
            assert(r.deep_view() =~= Seq::<Seq<char>>::empty());
            r
        },
    }
}

// ---------------------------------------------------------------------------
// What the cache holds
// ---------------------------------------------------------------------------

/// The contents of the cache's tables, each in the order in which its keys
/// were first stored.
pub ghost struct CacheModel {
    pub meta: Seq<MetaModel>,
    pub entitlements: Seq<StoredEntitlementModel>,
    pub projects: Seq<ProjectModel>,
    pub folders: Seq<FolderModel>,
    pub organizations: Seq<OrganizationModel>,
    pub grants: Seq<StoredGrantModel>,
}

/// A flag as the number it is stored as.
pub open spec fn flag(b: bool) -> i64 {
    if b {
        1
    } else {
        0
    }
}

/// An entitlement as it is stored, with the time of its last use.
pub open spec fn stored_entitlement(
    row: EntitlementModel,
    last_used_at: Option<i64>,
) -> StoredEntitlementModel {
    StoredEntitlementModel {
        name: row.name,
        scope_type: row.scope_type.name_text(),
        scope_id: row.scope_id,
        short_name: row.short_name,
        max_request_duration_secs: row.max_request_duration_secs,
        justification_required: flag(row.justification_required),
        approvers_json: encoded(row.approvers),
        roles_json: encoded(row.roles),
        raw_json: row.raw_json,
        fetched_at: row.fetched_at,
        last_used_at,
    }
}

/// A grant as it is stored.
pub open spec fn stored_grant(row: GrantModel) -> StoredGrantModel {
    StoredGrantModel {
        name: row.name,
        entitlement_name: row.entitlement_name,
        entitlement_short_name: row.entitlement_short_name,
        scope_type: row.scope_type.name_text(),
        scope_id: row.scope_id,
        short_id: row.short_id,
        state: row.state,
        requested_duration_secs: row.requested_duration_secs,
        justification: row.justification,
        created_at: row.created_at,
        activated_at: row.activated_at,
        expires_at: row.expires_at,
        last_polled_at: row.last_polled_at,
        raw_json: row.raw_json,
    }
}

/// `new` where there is one, `old` otherwise.
pub open spec fn newer(new: Option<i64>, old: Option<i64>) -> Option<i64> {
    if new is Some {
        new
    } else {
        old
    }
}

/// A grant after a poll.
pub open spec fn polled(
    g: StoredGrantModel,
    state: Seq<char>,
    activated_at: Option<i64>,
    expires_at: Option<i64>,
    last_polled_at: i64,
) -> StoredGrantModel {
    StoredGrantModel {
        state,
        activated_at: newer(activated_at, g.activated_at),
        expires_at: newer(expires_at, g.expires_at),
        last_polled_at: Some(last_polled_at),
        ..g
    }
}

/// A grant whose time has run out: one that is active, and expires at `now` or
/// earlier.
pub open spec fn ran_out(g: StoredGrantModel, now: i64) -> bool {
    g.state == "Active"@ && (g.expires_at matches Some(t) && t <= now)
}

/// A grant after those whose time has run out are marked.
pub open spec fn marked_expired(g: StoredGrantModel, now: i64) -> StoredGrantModel {
    if ran_out(g, now) {
        StoredGrantModel { state: "Expired"@, ..g }
    } else {
        g
    }
}

impl CacheModel {
    /// A cache that holds nothing.
    pub open spec fn empty() -> Self {
        CacheModel {
            meta: Seq::empty(),
            entitlements: Seq::empty(),
            projects: Seq::empty(),
            folders: Seq::empty(),
            organizations: Seq::empty(),
            grants: Seq::empty(),
        }
    }

    /// No table holds a key twice.
    pub open spec fn wf(self) -> bool {
        &&& table::distinct(self.meta)
        &&& table::distinct(self.entitlements)
        &&& table::distinct(self.projects)
        &&& table::distinct(self.folders)
        &&& table::distinct(self.organizations)
        &&& table::distinct(self.grants)
    }

    /// The value under a key of the `meta` table.
    pub open spec fn meta_value(self, key: Seq<char>) -> Option<Seq<char>> {
        match table::get(self.meta, key) {
            Some(m) => Some(m.value),
            None => None,
        }
    }

    /// The number under a key of the `meta` table.
    pub open spec fn timestamp(self, key: Seq<char>) -> Option<i64> {
        match self.meta_value(key) {
            Some(s) => numbers::parsed_i64(s),
            None => None,
        }
    }

    pub open spec fn with_meta(self, key: Seq<char>, value: Seq<char>) -> Self {
        CacheModel { meta: table::stored(self.meta, MetaModel { key, value }), ..self }
    }

    pub open spec fn with_timestamp(self, key: Seq<char>, ts: i64) -> Self {
        self.with_meta(key, numbers::int_text(ts as int))
    }

    /// The time an entitlement was last used.
    pub open spec fn last_used(self, name: Seq<char>) -> Option<i64> {
        match table::get(self.entitlements, name) {
            Some(e) => e.last_used_at,
            None => None,
        }
    }

    /// An entitlement stored: all but the time of its last use is replaced.
    pub open spec fn with_entitlement(self, row: EntitlementModel) -> Self {
        CacheModel {
            entitlements: table::stored(
                self.entitlements,
                stored_entitlement(row, self.last_used(row.name)),
            ),
            ..self
        }
    }

    /// The time of an entitlement's last use set, if the entitlement is there.
    pub open spec fn with_use(self, name: Seq<char>, ts: i64) -> Self {
        match table::get(self.entitlements, name) {
            Some(e) => CacheModel {
                entitlements: table::stored(
                    self.entitlements,
                    StoredEntitlementModel { last_used_at: Some(ts), ..e },
                ),
                ..self
            },
            None => self,
        }
    }

    pub open spec fn with_project(self, row: ProjectModel) -> Self {
        CacheModel { projects: table::stored(self.projects, row), ..self }
    }

    pub open spec fn with_folder(self, row: FolderModel) -> Self {
        CacheModel { folders: table::stored(self.folders, row), ..self }
    }

    pub open spec fn with_organization(self, row: OrganizationModel) -> Self {
        CacheModel { organizations: table::stored(self.organizations, row), ..self }
    }

    pub open spec fn with_grant(self, row: GrantModel) -> Self {
        CacheModel { grants: table::stored(self.grants, stored_grant(row)), ..self }
    }

    /// A grant patched after a poll, if the grant is there.
    pub open spec fn with_poll(
        self,
        name: Seq<char>,
        state: Seq<char>,
        activated_at: Option<i64>,
        expires_at: Option<i64>,
        last_polled_at: i64,
    ) -> Self {
        match table::get(self.grants, name) {
            Some(g) => CacheModel {
                grants: table::stored(
                    self.grants,
                    polled(g, state, activated_at, expires_at, last_polled_at),
                ),
                ..self
            },
            None => self,
        }
    }

    /// Every active grant whose time has run out marked as expired.
    pub open spec fn with_expiry(self, now: i64) -> Self {
        CacheModel {
            grants: Seq::new(self.grants.len(), |i: int| marked_expired(self.grants[i], now)),
            ..self
        }
    }

    /// An entitlement is stored such that it is read as `row`, with the time of
    /// its last use and the name of its scope as the cache knows them.
    pub open spec fn reads_back(self, row: EntitlementModel, last_used_at: Option<i64>) -> bool {
        table::get(self.entitlements, row.name) matches Some(e) && Scope::named(e.scope_type)
            == Some(row.scope_type) && self.read_entitlement(e, row.scope_type) == (
        EntitlementModel {
            scope_display_name: self.display_name(row.scope_type.name_text(), row.scope_id),
            last_used_at,
            ..row
        })
    }

    /// The human-readable name of a scope, by the scope's stored name and id.
    pub open spec fn display_name(
        self,
        scope_type: Seq<char>,
        scope_id: Seq<char>,
    ) -> Option<Seq<char>> {
        if scope_type == "project"@ {
            match table::get(self.projects, scope_id) {
                Some(p) => p.display_name,
                None => None,
            }
        } else if scope_type == "folder"@ {
            match table::get(self.folders, scope_id) {
                Some(f) => f.display_name,
                None => None,
            }
        } else if scope_type == "organization"@ {
            match table::get(self.organizations, scope_id) {
                Some(o) => o.display_name,
                None => None,
            }
        } else {
            None
        }
    }
}

/// The cache of one account.
pub struct Cache {
    meta: Table<MetaRow>,
    entitlements: Table<StoredEntitlement>,
    projects: Table<ProjectRow>,
    folders: Table<FolderRow>,
    organizations: Table<OrganizationRow>,
    grants: Table<StoredGrant>,
}

impl View for Cache {
    type V = CacheModel;

    closed spec fn view(&self) -> CacheModel {
        CacheModel {
            meta: self.meta@,
            entitlements: self.entitlements@,
            projects: self.projects@,
            folders: self.folders@,
            organizations: self.organizations@,
            grants: self.grants@,
        }
    }
}

/// The models of a list of rows.
pub open spec fn models<R: Row>(v: Seq<R>) -> Seq<R::M> {
    Seq::new(v.len(), |i: int| v[i].model())
}

impl Cache {
    /// No table holds a key twice.
    pub open spec fn wf(&self) -> bool {
        self@.wf()
    }

    /// A cache that holds nothing.
    pub fn new() -> (r: Self)
        ensures
            r.wf(),
            r@ == CacheModel::empty(),
    {
        Cache {
            meta: Table::new(),
            entitlements: Table::new(),
            projects: Table::new(),
            folders: Table::new(),
            organizations: Table::new(),
            grants: Table::new(),
        }
    }

    /// The cache that holds given rows. Of two rows with one key the later one
    /// is held.
    pub fn of(
        meta: Vec<MetaRow>,
        entitlements: Vec<StoredEntitlement>,
        projects: Vec<ProjectRow>,
        folders: Vec<FolderRow>,
        organizations: Vec<OrganizationRow>,
        grants: Vec<StoredGrant>,
    ) -> (r: Self)
        ensures
            r.wf(),
            r@ == (CacheModel {
                meta: table::stored_all(Seq::empty(), models(meta@)),
                entitlements: table::stored_all(Seq::empty(), models(entitlements@)),
                projects: table::stored_all(Seq::empty(), models(projects@)),
                folders: table::stored_all(Seq::empty(), models(folders@)),
                organizations: table::stored_all(Seq::empty(), models(organizations@)),
                grants: table::stored_all(Seq::empty(), models(grants@)),
            }),
    {
        Cache {
            meta: Table::of(meta),
            entitlements: Table::of(entitlements),
            projects: Table::of(projects),
            folders: Table::of(folders),
            organizations: Table::of(organizations),
            grants: Table::of(grants),
        }
    }

    /// The rows of the `meta` table.
    pub fn meta_rows(&self) -> (r: &Vec<MetaRow>)
        ensures
            models(r@) == self@.meta,
    {
        let r = self.meta.rows();
        assert(models(r@) =~= self@.meta);
        r
    }

    /// The rows of the entitlement table.
    pub fn entitlement_rows(&self) -> (r: &Vec<StoredEntitlement>)
        ensures
            models(r@) == self@.entitlements,
    {
        let r = self.entitlements.rows();
        assert(models(r@) =~= self@.entitlements);
        r
    }

    /// The rows of the project table.
    pub fn project_rows(&self) -> (r: &Vec<ProjectRow>)
        ensures
            models(r@) == self@.projects,
    {
        let r = self.projects.rows();
        assert(models(r@) =~= self@.projects);
        r
    }

    /// The rows of the folder table.
    pub fn folder_rows(&self) -> (r: &Vec<FolderRow>)
        ensures
            models(r@) == self@.folders,
    {
        let r = self.folders.rows();
        assert(models(r@) =~= self@.folders);
        r
    }

    /// The rows of the organization table.
    pub fn organization_rows(&self) -> (r: &Vec<OrganizationRow>)
        ensures
            models(r@) == self@.organizations,
    {
        let r = self.organizations.rows();
        assert(models(r@) =~= self@.organizations);
        r
    }

    /// The rows of the grant table.
    pub fn grant_rows(&self) -> (r: &Vec<StoredGrant>)
        ensures
            models(r@) == self@.grants,
    {
        let r = self.grants.rows();
        assert(models(r@) =~= self@.grants);
        r
    }

    pub fn set_meta(&mut self, key: &str, value: &str)
        requires
            old(self).wf(),
        ensures
            final(self).wf(),
            final(self)@ == old(self)@.with_meta(key@, value@),
    {
        self.meta.put(MetaRow { key: key.to_owned(), value: value.to_owned() });
    }

    pub fn get_meta(&self, key: &str) -> (r: Option<String>)
        ensures
            r.deep_view() == self@.meta_value(key@),
    {
        match self.meta.find(key) {
            Some(i) => Some(self.meta.at(i).value.as_str().to_owned()),
            None => None,
        }
    }

    /// The number stored under a key.
    pub fn meta_timestamp(&self, key: &str) -> (r: Option<i64>)
        ensures
            r == self@.timestamp(key@),
    {
        match self.get_meta(key) {
            Some(s) => parse_i64(s.as_str()),
            None => None,
        }
    }

    pub fn set_meta_timestamp(&mut self, key: &str, ts: i64)
        requires
            old(self).wf(),
        ensures
            final(self).wf(),
            final(self)@ == old(self)@.with_timestamp(key@, ts),
    {
        let value: String = i64_text(ts);
        self.set_meta(key, value.as_str());
    }

    /// Stores an entitlement. The time of its last use is kept: only
    /// `bump_used` changes it.
    pub fn upsert_entitlement(&mut self, row: &EntitlementRow)
        requires
            old(self).wf(),
        ensures
            final(self).wf(),
            final(self)@ == old(self)@.with_entitlement(row@),
            final(self)@.reads_back(row@, old(self)@.last_used(row.name@)),
            table::get(final(self)@.entitlements, row.name@) matches Some(e) && {
                &&& e.name == row.name@
                &&& e.scope_type == row.scope_type.name_text()
                &&& e.scope_id == row.scope_id@
                &&& e.short_name == row.short_name@
                &&& e.max_request_duration_secs == row.max_request_duration_secs
                &&& e.justification_required != 0 <==> row.justification_required
                &&& decoded(e.approvers_json) == row.approvers.deep_view()
                &&& decoded(e.roles_json) == row.roles.deep_view()
                &&& e.raw_json == row.raw_json@
                &&& e.fetched_at == row.fetched_at
                &&& e.last_used_at == old(self)@.last_used(row.name@)
            },
    {
        let ghost before = self@;
        let last_used_at: Option<i64> = match self.entitlements.find(row.name.as_str()) {
            Some(i) => self.entitlements.at(i).last_used_at,
            None => None,
        };
        self.entitlements.put(
            StoredEntitlement {
                name: row.name.as_str().to_owned(),
                scope_type: row.scope_type.as_str().to_owned(),
                scope_id: row.scope_id.as_str().to_owned(),
                short_name: row.short_name.as_str().to_owned(),
                max_request_duration_secs: row.max_request_duration_secs,
                justification_required: if row.justification_required {
                    1
                } else {
                    0
                },
                approvers_json: encode(&row.approvers),
                roles_json: encode(&row.roles),
                raw_json: row.raw_json.as_str().to_owned(),
                fetched_at: row.fetched_at,
                last_used_at,
            },
        );
        proof {
            let e = stored_entitlement(row@, last_used_at);
            table::lemma_stored(before.entitlements, e);
            row.scope_type.law_names_read_back();
        }
    }

    /// Sets the time of an entitlement's last use.
    pub fn bump_used(&mut self, name: &str, ts: i64)
        requires
            old(self).wf(),
        ensures
            final(self).wf(),
            final(self)@ == old(self)@.with_use(name@, ts),
    {
        if let Some(i) = self.entitlements.find(name) {
            let mut row: StoredEntitlement = self.entitlements.at(i).clone();
            row.last_used_at = Some(ts);
            self.entitlements.put(row);
        }
    }

    pub fn upsert_project(&mut self, row: &ProjectRow)
        requires
            old(self).wf(),
        ensures
            final(self).wf(),
            final(self)@ == old(self)@.with_project(row@),
    {
        self.projects.put(row.clone());
    }

    pub fn upsert_folder(&mut self, row: &FolderRow)
        requires
            old(self).wf(),
        ensures
            final(self).wf(),
            final(self)@ == old(self)@.with_folder(row@),
    {
        self.folders.put(row.clone());
    }

    pub fn upsert_organization(&mut self, row: &OrganizationRow)
        requires
            old(self).wf(),
        ensures
            final(self).wf(),
            final(self)@ == old(self)@.with_organization(row@),
    {
        self.organizations.put(row.clone());
    }

    pub fn upsert_grant(&mut self, row: &GrantRow)
        requires
            old(self).wf(),
        ensures
            final(self).wf(),
            final(self)@ == old(self)@.with_grant(row@),
    {
        self.grants.put(
            StoredGrant {
                name: row.name.as_str().to_owned(),
                entitlement_name: row.entitlement_name.as_str().to_owned(),
                entitlement_short_name: row.entitlement_short_name.as_str().to_owned(),
                scope_type: row.scope_type.as_str().to_owned(),
                scope_id: row.scope_id.as_str().to_owned(),
                short_id: row.short_id.as_str().to_owned(),
                state: row.state.as_str().to_owned(),
                requested_duration_secs: row.requested_duration_secs,
                justification: row.justification.clone(),
                created_at: row.created_at,
                activated_at: row.activated_at,
                expires_at: row.expires_at,
                last_polled_at: row.last_polled_at,
                raw_json: row.raw_json.clone(),
            },
        );
    }

    /// Patches what changes in a grant when it is polled. `activated_at` and
    /// `expires_at` are only written where there is a value: the first sight
    /// of an active grant stamps them, and later polls leave them alone.
    pub fn update_grant_state(
        &mut self,
        name: &str,
        state: &str,
        activated_at: Option<i64>,
        expires_at: Option<i64>,
        last_polled_at: i64,
    )
        requires
            old(self).wf(),
        ensures
            final(self).wf(),
            final(self)@ == old(self)@.with_poll(
                name@,
                state@,
                activated_at,
                expires_at,
                last_polled_at,
            ),
    {
        if let Some(i) = self.grants.find(name) {
            let mut row: StoredGrant = self.grants.at(i).clone();
            row.state = state.to_owned();
            if activated_at.is_some() {
                row.activated_at = activated_at;
            }
            if expires_at.is_some() {
                row.expires_at = expires_at;
            }
            row.last_polled_at = Some(last_polled_at);
            self.grants.put(row);
        }
    }

    /// The human-readable name of a scope.
    fn scope_name(&self, scope_type: &str, scope_id: &str) -> (r: Option<String>)
        ensures
            r.deep_view() == self@.display_name(scope_type@, scope_id@),
    {
        if *scope_type == *"project" {
            match self.projects.find(scope_id) {
                Some(i) => self.projects.at(i).display_name.clone(),
                None => None,
            }
        } else if *scope_type == *"folder" {
            match self.folders.find(scope_id) {
                Some(i) => self.folders.at(i).display_name.clone(),
                None => None,
            }
        } else if *scope_type == *"organization" {
            match self.organizations.find(scope_id) {
                Some(i) => self.organizations.at(i).display_name.clone(),
                None => None,
            }
        } else {
            None
        }
    }
}

// ---------------------------------------------------------------------------
// Listing entitlements
// ---------------------------------------------------------------------------

/// The entitlement used later comes first, and one that was never used behind
/// all others; between those, by scope, scope id and short name.
pub open spec fn listed_before(a: StoredEntitlementModel, b: StoredEntitlementModel) -> bool {
    if a.last_used_at is Some != b.last_used_at is Some {
        a.last_used_at is Some
    } else if a.last_used_at != b.last_used_at {
        a.last_used_at->0 > b.last_used_at->0
    } else if a.scope_type != b.scope_type {
        text::text_before(a.scope_type, b.scope_type)
    } else if a.scope_id != b.scope_id {
        text::text_before(a.scope_id, b.scope_id)
    } else {
        text::text_before(a.short_name, b.short_name)
    }
}

/// Entitlements that nothing else orders stay in the order they were stored.
pub open spec fn listed_leq(s: Seq<StoredEntitlementModel>, i: int, j: int) -> bool {
    listed_before(s[i], s[j]) || (!listed_before(s[j], s[i]) && i <= j)
}

/// The places of the entitlements in the order in which they are listed.
pub open spec fn listed_order(s: Seq<StoredEntitlementModel>) -> Seq<int> {
    order::below(s.len()).sort_by(|i: int, j: int| listed_leq(s, i, j))
}

/// Nothing but the four keys decides, one of two always comes first, and never
/// both.
proof fn lemma_listed_before(a: StoredEntitlementModel, b: StoredEntitlementModel)
    ensures
        !(listed_before(a, b) && listed_before(b, a)),
        !listed_before(a, b) && !listed_before(b, a) ==> a.last_used_at == b.last_used_at
            && a.scope_type == b.scope_type && a.scope_id == b.scope_id && a.short_name
            == b.short_name,
{
    if a.scope_type != b.scope_type {
        text::lemma_before_total(a.scope_type, b.scope_type);
    }
    if a.scope_id != b.scope_id {
        text::lemma_before_total(a.scope_id, b.scope_id);
    }
    if a.short_name != b.short_name {
        text::lemma_before_total(a.short_name, b.short_name);
    }
    text::lemma_before_irreflexive(a.short_name);
}

proof fn lemma_listed_before_transitive(
    a: StoredEntitlementModel,
    b: StoredEntitlementModel,
    c: StoredEntitlementModel,
)
    requires
        listed_before(a, b),
        listed_before(b, c),
    ensures
        listed_before(a, c),
{
    if a.last_used_at == b.last_used_at && b.last_used_at == c.last_used_at {
        if a.scope_type != b.scope_type && b.scope_type != c.scope_type {
            text::lemma_before_transitive(a.scope_type, b.scope_type, c.scope_type);
            text::lemma_before_irreflexive(a.scope_type);
        } else if a.scope_type == b.scope_type && b.scope_type == c.scope_type {
            if a.scope_id != b.scope_id && b.scope_id != c.scope_id {
                text::lemma_before_transitive(a.scope_id, b.scope_id, c.scope_id);
                text::lemma_before_irreflexive(a.scope_id);
            } else if a.scope_id == b.scope_id && b.scope_id == c.scope_id {
                text::lemma_before_transitive(a.short_name, b.short_name, c.short_name);
            }
        }
    }
}

proof fn lemma_listed_total(s: Seq<StoredEntitlementModel>)
    ensures
        total_ordering(|i: int, j: int| listed_leq(s, i, j)),
{
    let leq = |i: int, j: int| listed_leq(s, i, j);
    assert forall|i: int| #[trigger] leq(i, i) by {
        lemma_listed_before(s[i], s[i]);
    }
    assert forall|i: int, j: int| #[trigger] leq(i, j) && #[trigger] leq(j, i) implies i == j by {
        lemma_listed_before(s[i], s[j]);
    }
    assert forall|i: int, j: int, k: int| #[trigger] leq(i, j) && #[trigger] leq(j, k) implies leq(
        i,
        k,
    ) by {
        lemma_listed_before(s[i], s[j]);
        lemma_listed_before(s[j], s[k]);
        lemma_listed_before(s[i], s[k]);
        if listed_before(s[i], s[j]) && listed_before(s[j], s[k]) {
            lemma_listed_before_transitive(s[i], s[j], s[k]);
        }
    }
    assert forall|i: int, j: int| #[trigger] leq(i, j) || #[trigger] leq(j, i) by {
        lemma_listed_before(s[i], s[j]);
    }
}

struct EntitlementOrder<'a> {
    rows: &'a Vec<StoredEntitlement>,
}

impl<'a> Order for EntitlementOrder<'a> {
    closed spec fn valid(&self, i: int) -> bool {
        0 <= i < self.rows@.len()
    }

    closed spec fn leq(&self, i: int, j: int) -> bool {
        listed_leq(models(self.rows@), i, j)
    }

    proof fn lemma_total(&self) {
        let s = models(self.rows@);
        lemma_listed_total(s);
        assert((|i: int, j: int| self.leq(i, j)) =~= (|i: int, j: int| listed_leq(s, i, j)));
    }

    fn at_most(&self, i: usize, j: usize) -> (r: bool) {
        proof {
            lemma_listed_before(self.rows@[i as int]@, self.rows@[j as int]@);
        }
        listed_first(&self.rows[i], &self.rows[j]) || (!listed_first(&self.rows[j], &self.rows[i])
            && i <= j)
    }
}

/// Tells whether `a` is listed before `b`, by their contents.
fn listed_first(a: &StoredEntitlement, b: &StoredEntitlement) -> (r: bool)
    ensures
        r == listed_before(a@, b@),
{
    match (a.last_used_at, b.last_used_at) {
        (Some(s), Some(t)) => if s != t {
            return s > t;
        },
        (Some(_), None) => {
            return true;
        },
        (None, Some(_)) => {
            return false;
        },
        (None, None) => {},
    }
    if *a.scope_type.as_str() != *b.scope_type.as_str() {
        before(a.scope_type.as_str(), b.scope_type.as_str())
    } else if *a.scope_id.as_str() != *b.scope_id.as_str() {
        before(a.scope_id.as_str(), b.scope_id.as_str())
    } else {
        before(a.short_name.as_str(), b.short_name.as_str())
    }
}

impl CacheModel {
    /// An entitlement as it is read, with the name of its scope.
    pub open spec fn read_entitlement(
        self,
        e: StoredEntitlementModel,
        scope_type: Scope,
    ) -> EntitlementModel {
        EntitlementModel {
            name: e.name,
            scope_type,
            scope_id: e.scope_id,
            scope_display_name: self.display_name(e.scope_type, e.scope_id),
            short_name: e.short_name,
            max_request_duration_secs: e.max_request_duration_secs,
            justification_required: e.justification_required != 0,
            approvers: decoded(e.approvers_json),
            roles: decoded(e.roles_json),
            raw_json: e.raw_json,
            fetched_at: e.fetched_at,
            last_used_at: e.last_used_at,
        }
    }

    /// A grant as it is read, with the name of its scope.
    pub open spec fn read_grant(self, g: StoredGrantModel, scope_type: Scope) -> GrantModel {
        GrantModel {
            name: g.name,
            entitlement_name: g.entitlement_name,
            entitlement_short_name: g.entitlement_short_name,
            scope_type,
            scope_id: g.scope_id,
            scope_display_name: self.display_name(g.scope_type, g.scope_id),
            short_id: g.short_id,
            state: g.state,
            requested_duration_secs: g.requested_duration_secs,
            justification: g.justification,
            created_at: g.created_at,
            activated_at: g.activated_at,
            expires_at: g.expires_at,
            last_polled_at: g.last_polled_at,
            raw_json: g.raw_json,
        }
    }

    /// The listing of all entitlements, read in `places`: every scope name is
    /// a scope's, and each row is read as it stands.
    pub open spec fn lists_entitlements(
        self,
        places: Seq<int>,
        out: Seq<EntitlementModel>,
    ) -> bool {
        &&& out.len() == places.len()
        &&& forall|k: int|
            0 <= k < places.len() ==> (Scope::named(
                self.entitlements[#[trigger] places[k]].scope_type,
            ) matches Some(scope) && out[k] == self.read_entitlement(
                self.entitlements[places[k]],
                scope,
            ))
    }

    /// `name` is the first scope name in `places` that is no scope's.
    pub open spec fn bad_entitlement(self, places: Seq<int>, name: Seq<char>) -> bool {
        exists|k: int|
            {
                &&& 0 <= k < places.len()
                &&& self.entitlements[#[trigger] places[k]].scope_type == name
                &&& Scope::named(name) is None
                &&& forall|l: int|
                    0 <= l < k ==> Scope::named(
                        self.entitlements[#[trigger] places[l]].scope_type,
                    ) is Some
            }
    }

    /// The listing of grants, read in `places`.
    pub open spec fn lists_grants(self, places: Seq<int>, out: Seq<GrantModel>) -> bool {
        &&& out.len() == places.len()
        &&& forall|k: int|
            0 <= k < places.len() ==> (Scope::named(
                self.grants[#[trigger] places[k]].scope_type,
            ) matches Some(scope) && out[k] == self.read_grant(self.grants[places[k]], scope))
    }

    /// `name` is the first scope name in `places` that is no scope's.
    pub open spec fn bad_grant(self, places: Seq<int>, name: Seq<char>) -> bool {
        exists|k: int|
            {
                &&& 0 <= k < places.len()
                &&& self.grants[#[trigger] places[k]].scope_type == name
                &&& Scope::named(name) is None
                &&& forall|l: int|
                    0 <= l < k ==> Scope::named(
                        self.grants[#[trigger] places[l]].scope_type,
                    ) is Some
            }
    }
}

/// A sorted list of indices holds the indices that were sorted.
proof fn lemma_sorted_places(s: Seq<int>, leq: spec_fn(int, int) -> bool)
    requires
        total_ordering(leq),
    ensures
        s.sort_by(leq).len() == s.len(),
        forall|k: int| 0 <= k < s.len() ==> s.contains(#[trigger] s.sort_by(leq)[k]),
{
    broadcast use vstd::seq_lib::group_to_multiset_ensures;

    s.lemma_sort_by_ensures(leq);
    let t = s.sort_by(leq);
    assert(t.len() == t.to_multiset().len());
    assert forall|k: int| 0 <= k < t.len() implies s.contains(#[trigger] t[k]) by {
        assert(t.contains(t[k]));
    }
}

impl Cache {
    /// All entitlements: the one used last first, those never used at the end,
    /// by scope and short name. Each row carries the name of its scope, where
    /// one is known.
    pub fn list_entitlements(&self) -> (r: Result<Vec<EntitlementRow>, UnknownScope>)
        ensures
            match r {
                Ok(out) => self@.lists_entitlements(
                    listed_order(self@.entitlements),
                    rows::entitlement_models(out@),
                ),
                Err(e) => self@.bad_entitlement(listed_order(self@.entitlements), e.name@),
            },
    {
        let stored: &Vec<StoredEntitlement> = self.entitlement_rows();
        let o = EntitlementOrder { rows: stored };
        let all: Vec<usize> = order::indices(stored.len());
        let ghost s = self@.entitlements;
        proof {
            assert(s.len() == stored@.len());
            assert forall|k: int| 0 <= k < all.len() implies #[trigger] o.valid(all[k] as int) by {
                assert(all@[k] == k);
            }
        }
        let places: Vec<usize> = order::sort(&o, &all);
        let ghost order = listed_order(s);
        proof {
            lemma_listed_total(s);
            assert((|i: int, j: int| o.leq(i, j)) =~= (|i: int, j: int| listed_leq(s, i, j)));
            assert(order::ints(places@) == order);
            lemma_sorted_places(order::below(s.len()), |i: int, j: int| listed_leq(s, i, j));
        }
        let mut out: Vec<EntitlementRow> = Vec::new();
        let mut k: usize = 0;
        while k < places.len()
            invariant
                k <= places.len(),
                s == self@.entitlements,
                models(stored@) == s,
                order == order::ints(places@),
                order == listed_order(s),
                forall|l: int| 0 <= l < order.len() ==> order::below(s.len()).contains(#[trigger] order[l]),
                out.len() == k,
                forall|l: int|
                    0 <= l < k ==> (Scope::named(s[#[trigger] order[l]].scope_type) matches Some(scope)
                        && out@[l]@ == self@.read_entitlement(s[order[l]], scope)),
            decreases places.len() - k,
        {
            assert(order::below(s.len()).contains(order[k as int]));
            assert(order[k as int] == places[k as int]);
            let e: &StoredEntitlement = &stored[places[k]];
            assert(e@ == s[order[k as int]]);
            match Scope::parse(e.scope_type.as_str()) {
                Ok(scope_type) => {
                    out.push(
                        EntitlementRow {
                            name: e.name.as_str().to_owned(),
                            scope_type,
                            scope_id: e.scope_id.as_str().to_owned(),
                            scope_display_name: self.scope_name(
                                e.scope_type.as_str(),
                                e.scope_id.as_str(),
                            ),
                            short_name: e.short_name.as_str().to_owned(),
                            max_request_duration_secs: e.max_request_duration_secs,
                            justification_required: e.justification_required != 0,
                            approvers: decode(e.approvers_json.as_str()),
                            roles: decode(e.roles_json.as_str()),
                            raw_json: e.raw_json.as_str().to_owned(),
                            fetched_at: e.fetched_at,
                            last_used_at: e.last_used_at,
                        },
                    );
                },
                Err(bad) => {
                    assert(self@.bad_entitlement(order, bad.name@)) by {
                        assert(self@.entitlements[order[k as int]].scope_type == bad.name@);
                    }
                    return Err(bad);
                },
            }
            k += 1;
        }
        assert(self@.lists_entitlements(order, rows::entitlement_models(out@)));
        Ok(out)
    }
}

// ---------------------------------------------------------------------------
// Listing grants
// ---------------------------------------------------------------------------

/// For how long the outcome of a grant stays visible.
pub const FRESH_TERMINAL_WINDOW_SECS: i64 = 3600;

/// The stored states that no grant leaves, in both spellings.
pub open spec fn terminal_name(s: Seq<char>) -> bool {
    ||| s == "Denied"@
    ||| s == "Expired"@
    ||| s == "Revoked"@
    ||| s == "Ended"@
    ||| s == "Withdrawn"@
    ||| s == "ActivationFailed"@
    ||| s == "DENIED"@
    ||| s == "EXPIRED"@
    ||| s == "REVOKED"@
    ||| s == "ENDED"@
    ||| s == "WITHDRAWN"@
    ||| s == "ACTIVATION_FAILED"@
}

/// A grant that is not over, or that expired at `cutoff` or later.
pub open spec fn in_strip(g: StoredGrantModel, cutoff: int) -> bool {
    !terminal_name(g.state) || (g.expires_at matches Some(t) && t >= cutoff)
}

/// The grant created later comes first; grants created at one time stay in the
/// order they were stored.
pub open spec fn newest_leq(s: Seq<StoredGrantModel>, i: int, j: int) -> bool {
    s[i].created_at > s[j].created_at || (s[i].created_at == s[j].created_at && i <= j)
}

/// The places of the tracked grants in the order in which they are listed.
pub open spec fn tracked_order(s: Seq<StoredGrantModel>, cutoff: int) -> Seq<int> {
    order::below(s.len()).filter(|i: int| in_strip(s[i], cutoff)).sort_by(
        |i: int, j: int| newest_leq(s, i, j),
    )
}

proof fn lemma_newest_total(s: Seq<StoredGrantModel>)
    ensures
        total_ordering(|i: int, j: int| newest_leq(s, i, j)),
{
}

struct GrantOrder<'a> {
    rows: &'a Vec<StoredGrant>,
}

impl<'a> Order for GrantOrder<'a> {
    closed spec fn valid(&self, i: int) -> bool {
        0 <= i < self.rows@.len()
    }

    closed spec fn leq(&self, i: int, j: int) -> bool {
        newest_leq(models(self.rows@), i, j)
    }

    proof fn lemma_total(&self) {
        let s = models(self.rows@);
        lemma_newest_total(s);
        assert((|i: int, j: int| self.leq(i, j)) =~= (|i: int, j: int| newest_leq(s, i, j)));
    }

    fn at_most(&self, i: usize, j: usize) -> (r: bool) {
        let (a, b): (i64, i64) = (self.rows[i].created_at, self.rows[j].created_at);
        a > b || (a == b && i <= j)
    }
}

fn is_terminal_name(s: &str) -> (r: bool)
    ensures
        r == terminal_name(s@),
{
    *s == *"Denied" || *s == *"Expired" || *s == *"Revoked" || *s == *"Ended" || *s == *"Withdrawn"
        || *s == *"ActivationFailed" || *s == *"DENIED" || *s == *"EXPIRED" || *s == *"REVOKED"
        || *s == *"ENDED" || *s == *"WITHDRAWN" || *s == *"ACTIVATION_FAILED"
}

fn is_tracked(g: &StoredGrant, cutoff: i64) -> (r: bool)
    ensures
        r == in_strip(g@, cutoff as int),
{
    let recent: bool = match g.expires_at {
        Some(t) => t >= cutoff,
        None => false,
    };
    !is_terminal_name(g.state.as_str()) || recent
}

/// The places of the tracked grants, in the order they were stored.
fn tracked_indices(rows: &Vec<StoredGrant>, cutoff: i64) -> (r: Vec<usize>)
    ensures
        order::ints(r@) == order::below(rows@.len()).filter(
            |i: int| in_strip(models(rows@)[i], cutoff as int),
        ),
        forall|k: int| 0 <= k < r@.len() ==> #[trigger] r@[k] < rows@.len(),
{
    let ghost keep = |i: int| in_strip(models(rows@)[i], cutoff as int);
    let mut r: Vec<usize> = Vec::new();
    let mut i: usize = 0;
    proof {
        reveal(Seq::filter);
        assert(order::ints(r@) =~= order::below(0).filter(keep));
    }
    while i < rows.len()
        invariant
            i <= rows.len(),
            keep == (|i: int| in_strip(models(rows@)[i], cutoff as int)),
            order::ints(r@) == order::below(i as nat).filter(keep),
            forall|k: int| 0 <= k < r@.len() ==> #[trigger] r@[k] < rows@.len(),
        decreases rows.len() - i,
    {
        proof {
            assert(order::below((i + 1) as nat) =~= order::below(i as nat).push(i as int));
            order::below(i as nat).lemma_filter_push(i as int, keep);
        }
        let ghost prior = order::ints(r@);
        if is_tracked(&rows[i], cutoff) {
            r.push(i);
            assert(order::ints(r@) =~= prior.push(i as int));
        }
        i += 1;
    }
    r
}

impl Cache {
    /// The grants of the live strip: every grant that is not over, and those
    /// that expired within the last hour, the newest first.
    pub fn list_tracked_grants(&self, now: i64) -> (r: Result<Vec<GrantRow>, UnknownScope>)
        requires
            now - FRESH_TERMINAL_WINDOW_SECS >= i64::MIN,
        ensures
            match r {
                Ok(out) => self@.lists_grants(
                    tracked_order(self@.grants, now - FRESH_TERMINAL_WINDOW_SECS),
                    rows::grant_models(out@),
                ),
                Err(e) => self@.bad_grant(
                    tracked_order(self@.grants, now - FRESH_TERMINAL_WINDOW_SECS),
                    e.name@,
                ),
            },
    {
        let cutoff: i64 = now - FRESH_TERMINAL_WINDOW_SECS;
        let stored: &Vec<StoredGrant> = self.grant_rows();
        let o = GrantOrder { rows: stored };
        let kept: Vec<usize> = tracked_indices(stored, cutoff);
        let ghost s = self@.grants;
        proof {
            assert forall|k: int| 0 <= k < kept.len() implies #[trigger] o.valid(
                kept[k] as int,
            ) by {
                assert(kept@[k] < stored@.len());
            }
        }
        let places: Vec<usize> = order::sort(&o, &kept);
        let ghost order = tracked_order(s, cutoff as int);
        proof {
            lemma_newest_total(s);
            assert((|i: int, j: int| o.leq(i, j)) =~= (|i: int, j: int| newest_leq(s, i, j)));
            assert(s.len() == stored@.len());
            assert((|i: int| in_strip(models(stored@)[i], cutoff as int)) =~= (|i: int|
                in_strip(s[i], cutoff as int)));
            assert(order::ints(places@) == order);
            lemma_sorted_places(order::ints(kept@), |i: int, j: int| newest_leq(s, i, j));
            assert forall|l: int| 0 <= l < order.len() implies 0 <= #[trigger] order[l] < s.len() by {
                assert(order::ints(kept@).contains(order[l]));
            }
        }
        let mut out: Vec<GrantRow> = Vec::new();
        let mut k: usize = 0;
        while k < places.len()
            invariant
                k <= places.len(),
                s == self@.grants,
                models(stored@) == s,
                order == order::ints(places@),
                order == tracked_order(s, cutoff as int),
                cutoff == now - FRESH_TERMINAL_WINDOW_SECS,
                forall|l: int| 0 <= l < order.len() ==> 0 <= #[trigger] order[l] < s.len(),
                out.len() == k,
                forall|l: int|
                    0 <= l < k ==> (Scope::named(s[#[trigger] order[l]].scope_type) matches Some(scope)
                        && out@[l]@ == self@.read_grant(s[order[l]], scope)),
            decreases places.len() - k,
        {
            assert(0 <= order[k as int] < s.len());
            assert(order[k as int] == places[k as int]);
            let g: &StoredGrant = &stored[places[k]];
            assert(g@ == s[order[k as int]]);
            match Scope::parse(g.scope_type.as_str()) {
                Ok(scope_type) => {
                    out.push(
                        GrantRow {
                            name: g.name.as_str().to_owned(),
                            entitlement_name: g.entitlement_name.as_str().to_owned(),
                            entitlement_short_name: g.entitlement_short_name.as_str().to_owned(),
                            scope_type,
                            scope_id: g.scope_id.as_str().to_owned(),
                            scope_display_name: self.scope_name(
                                g.scope_type.as_str(),
                                g.scope_id.as_str(),
                            ),
                            short_id: g.short_id.as_str().to_owned(),
                            state: g.state.as_str().to_owned(),
                            requested_duration_secs: g.requested_duration_secs,
                            justification: g.justification.clone(),
                            created_at: g.created_at,
                            activated_at: g.activated_at,
                            expires_at: g.expires_at,
                            last_polled_at: g.last_polled_at,
                            raw_json: g.raw_json.clone(),
                        },
                    );
                },
                Err(bad) => {
                    assert(self@.bad_grant(order, bad.name@)) by {
                        assert(self@.grants[order[k as int]].scope_type == bad.name@);
                    }
                    return Err(bad);
                },
            }
            k += 1;
        }
        assert(self@.lists_grants(order, rows::grant_models(out@)));
        Ok(out)
    }

    /// Marks every active grant whose time has run out as expired.
    pub fn expire_stale_active_grants(&mut self, now: i64)
        requires
            old(self).wf(),
        ensures
            final(self).wf(),
            final(self)@ == old(self)@.with_expiry(now),
    {
        let n: usize = self.grants.len();
        let ghost before = self@.grants;
        let mut i: usize = 0;
        assert(before =~= Seq::new(
            before.len(),
            |k: int| if k < 0 { marked_expired(before[k], now) } else { before[k] },
        ));
        while i < n
            invariant
                i <= n,
                n == before.len(),
                self.wf(),
                before == old(self)@.grants,
                self@ == (CacheModel { grants: self@.grants, ..old(self)@ }),
                self@.grants == Seq::new(
                    before.len(),
                    |k: int| if k < i { marked_expired(before[k], now) } else { before[k] },
                ),
            decreases n - i,
        {
            let ghost current = self@.grants;
            let g: &StoredGrant = self.grants.at(i);
            assert(g@ == before[i as int]);
            let over: bool = match g.expires_at {
                Some(t) => t <= now,
                None => false,
            };
            if over && *g.state.as_str() == *"Active" {
                let mut row: StoredGrant = g.clone();
                row.state = "Expired".to_owned();
                proof {
                    table::lemma_slot_of(current, i as int);
                }
                self.grants.put(row);
            }
            i += 1;
            assert(self@.grants =~= Seq::new(
                before.len(),
                |k: int| if k < i { marked_expired(before[k], now) } else { before[k] },
            ));
        }
        assert(self@.grants =~= Seq::new(before.len(), |k: int| marked_expired(before[k], now)));
    }
}

// ---------------------------------------------------------------------------
// Listings that are empty where a row cannot be read
// ---------------------------------------------------------------------------

impl CacheModel {
    /// All entitlements as they are listed, or none where one cannot be read.
    pub open spec fn entitlement_listing(self) -> Seq<EntitlementModel> {
        let places = listed_order(self.entitlements);
        if forall|k: int|
            0 <= k < places.len() ==> Scope::named(
                self.entitlements[#[trigger] places[k]].scope_type,
            ) is Some {
            Seq::new(
                places.len(),
                |k: int|
                    self.read_entitlement(
                        self.entitlements[places[k]],
                        Scope::named(self.entitlements[places[k]].scope_type)->0,
                    ),
            )
        } else {
            Seq::empty()
        }
    }

    /// The grants of the live strip as they are listed, or none where one
    /// cannot be read.
    pub open spec fn grant_listing(self, now: i64) -> Seq<GrantModel> {
        let places = tracked_order(self.grants, now - FRESH_TERMINAL_WINDOW_SECS);
        if forall|k: int|
            0 <= k < places.len() ==> Scope::named(
                self.grants[#[trigger] places[k]].scope_type,
            ) is Some {
            Seq::new(
                places.len(),
                |k: int|
                    self.read_grant(
                        self.grants[places[k]],
                        Scope::named(self.grants[places[k]].scope_type)->0,
                    ),
            )
        } else {
            Seq::empty()
        }
    }
}

impl Cache {
    /// All entitlements, or none where one cannot be read.
    pub fn entitlements_or_none(&self) -> (r: Vec<EntitlementRow>)
        ensures
            rows::entitlement_models(r@) == self@.entitlement_listing(),
    {
        match self.list_entitlements() {
            Ok(out) => {
                assert(rows::entitlement_models(out@) =~= self@.entitlement_listing());
                out
            },
            Err(_) => {
                let out: Vec<EntitlementRow> = Vec::new();
                assert(rows::entitlement_models(out@) =~= self@.entitlement_listing());
                out
            },
        }
    }

    /// The grants of the live strip, or none where one cannot be read.
    pub fn grants_or_none(&self, now: i64) -> (r: Vec<GrantRow>)
        requires
            now - FRESH_TERMINAL_WINDOW_SECS >= i64::MIN,
        ensures
            rows::grant_models(r@) == self@.grant_listing(now),
    {
        match self.list_tracked_grants(now) {
            Ok(out) => {
                assert(rows::grant_models(out@) =~= self@.grant_listing(now));
                out
            },
            Err(_) => {
                let out: Vec<GrantRow> = Vec::new();
                assert(rows::grant_models(out@) =~= self@.grant_listing(now));
                out
            },
        }
    }
}

} // verus!
