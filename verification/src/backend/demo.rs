//! A data source with seeded data and an in-memory grant state machine, to try
//! the program without credentials.
use vstd::prelude::*;
use vstd::string::*;
use crate::backend::{ScopeTarget, TargetModel};
use crate::cache;
use crate::cache::rows;
use crate::cache::rows::{EntitlementModel, FolderModel, OrganizationModel, ProjectModel};
use crate::cache::schema;
use crate::cache::{EntitlementRow, FolderRow, OrganizationRow, ProjectRow, now_unix};
use crate::gcp::Scope;
use crate::gcp::entitlements;
use crate::gcp::entitlements::parent;
use crate::gcp::grants::{GrantState, StateModel};
use crate::numbers;
use crate::numbers::u64_text;
use crate::table;
use crate::table::{Keyed, Row, Table};
use crate::text;
use crate::text::zero_pad;

verus! {

/// A grant of the demo.
struct DemoGrant {
    name: String,
    state: GrantState,
    poll_count: u32,
    /// The entitlement has no approvers: the grant is active at the first
    /// poll. Other grants take longer.
    auto: bool,
}

/// A grant of the demo, as characters.
pub ghost struct DemoGrantModel {
    pub name: Seq<char>,
    pub state: StateModel,
    pub poll_count: u32,
    pub auto: bool,
}

impl Keyed for DemoGrantModel {
    open spec fn key(self) -> Seq<char> {
        self.name
    }
}

impl Row for DemoGrant {
    type M = DemoGrantModel;

    closed spec fn model(&self) -> DemoGrantModel {
        DemoGrantModel {
            name: self.name@,
            state: self.state@,
            poll_count: self.poll_count,
            auto: self.auto,
        }
    }

    fn row_key(&self) -> (r: &str) {
        self.name.as_str()
    }
}

/// What the demo holds.
pub ghost struct DemoModel {
    pub projects: Seq<ProjectModel>,
    pub folders: Seq<FolderModel>,
    pub organizations: Seq<OrganizationModel>,
    pub entitlements: Seq<EntitlementModel>,
    pub next_id: u64,
    pub grants: Seq<DemoGrantModel>,
}

/// The seeded data and the grants of the demo.
pub struct DemoBackend {
    projects: Vec<ProjectRow>,
    folders: Vec<FolderRow>,
    organizations: Vec<OrganizationRow>,
    /// The entitlements of all scopes. Each is stamped with the name of the
    /// scope and the time when it is read.
    entitlements: Vec<EntitlementRow>,
    next_id: u64,
    grants: Table<DemoGrant>,
}

impl View for DemoBackend {
    type V = DemoModel;

    closed spec fn view(&self) -> DemoModel {
        DemoModel {
            projects: cache::models(self.projects@),
            folders: cache::models(self.folders@),
            organizations: cache::models(self.organizations@),
            entitlements: rows::entitlement_models(self.entitlements@),
            next_id: self.next_id,
            grants: self.grants@,
        }
    }
}

// ---------------------------------------------------------------------------
// The seed
// ---------------------------------------------------------------------------

/// A seeded project.
pub open spec fn demo_project(id: Seq<char>, name: Seq<char>, now: i64) -> ProjectModel {
    ProjectModel {
        project_id: id,
        display_name: Some(name),
        state: Some("Active"@),
        fetched_at: now,
    }
}

/// A seeded folder.
pub open spec fn demo_folder(id: Seq<char>, name: Seq<char>, now: i64) -> FolderModel {
    FolderModel {
        folder_id: id,
        display_name: Some(name),
        parent: Some("organizations/300000001"@),
        fetched_at: now,
    }
}

/// A seeded entitlement.
pub open spec fn demo_entitlement(
    scope: Scope,
    scope_id: Seq<char>,
    short: Seq<char>,
    justification_required: bool,
    approvers: Seq<Seq<char>>,
    roles: Seq<Seq<char>>,
    max_secs: i64,
    now: i64,
) -> EntitlementModel {
    EntitlementModel {
        name: entitlements::parent_name(scope, scope_id) + "/entitlements/"@ + short,
        scope_type: scope,
        scope_id,
        scope_display_name: None,
        short_name: short,
        max_request_duration_secs: Some(max_secs),
        justification_required,
        approvers,
        roles,
        raw_json: "{}"@,
        fetched_at: now,
        last_used_at: None,
    }
}

impl DemoModel {
    /// The data the demo starts with: three projects, two folders and an
    /// organization, with eight entitlements among them, and no grants.
    pub open spec fn seeded(now: i64) -> Self {
        let p = Scope::Project;
        let f = Scope::Folder;
        let o = Scope::Organization;
        let none = Seq::<Seq<char>>::empty();
        DemoModel {
            projects: seq![
                demo_project("acme-prod-platform"@, "Acme Production Platform"@, now),
                demo_project("acme-staging"@, "Acme Staging"@, now),
                demo_project("acme-data-warehouse"@, "Data Warehouse"@, now),
            ],
            folders: seq![
                demo_folder("200000001"@, "Engineering"@, now),
                demo_folder("200000002"@, "Platform Team"@, now),
            ],
            organizations: seq![
                OrganizationModel {
                    org_id: "300000001"@,
                    display_name: Some("acme.example.com"@),
                    fetched_at: now,
                },
            ],
            entitlements: seq![
                demo_entitlement(
                    p,
                    "acme-prod-platform"@,
                    "sre-break-glass"@,
                    true,
                    seq!["user:on-call@acme.example.com"@],
                    seq!["roles/owner"@],
                    14400,
                    now,
                ),
                demo_entitlement(
                    p,
                    "acme-prod-platform"@,
                    "logs-read"@,
                    false,
                    none,
                    seq!["roles/logging.viewer"@],
                    28800,
                    now,
                ),
                demo_entitlement(
                    p,
                    "acme-staging"@,
                    "admin-staging"@,
                    false,
                    none,
                    seq!["roles/editor"@],
                    28800,
                    now,
                ),
                demo_entitlement(
                    p,
                    "acme-data-warehouse"@,
                    "bigquery-read"@,
                    true,
                    seq!["group:data-stewards@acme.example.com"@],
                    seq!["roles/bigquery.dataViewer"@],
                    28800,
                    now,
                ),
                demo_entitlement(
                    f,
                    "200000001"@,
                    "eng-admin"@,
                    true,
                    seq!["group:eng-leads@acme.example.com"@],
                    seq!["roles/resourcemanager.folderAdmin"@],
                    14400,
                    now,
                ),
                demo_entitlement(
                    f,
                    "200000002"@,
                    "platform-deploy"@,
                    false,
                    none,
                    seq!["roles/cloudbuild.builds.editor"@],
                    28800,
                    now,
                ),
                demo_entitlement(
                    o,
                    "300000001"@,
                    "org-billing-view"@,
                    true,
                    seq!["group:finance@acme.example.com"@],
                    seq!["roles/billing.viewer"@],
                    28800,
                    now,
                ),
                demo_entitlement(
                    o,
                    "300000001"@,
                    "org-audit-read"@,
                    true,
                    seq!["group:security@acme.example.com"@],
                    seq!["roles/iam.securityReviewer"@],
                    28800,
                    now,
                ),
            ],
            next_id: 0,
            grants: Seq::empty(),
        }
    }
}

fn seed_project(id: &str, name: &str, now: i64) -> (r: ProjectRow)
    ensures
        r@ == demo_project(id@, name@, now),
        r.project_id@ == id@,
        r.display_name.deep_view() == Some(name@),
        r.state.deep_view() == Some("Active"@),
        r.fetched_at == now,
{
    ProjectRow {
        project_id: id.to_owned(),
        display_name: Some(name.to_owned()),
        state: Some("Active".to_owned()),
        fetched_at: now,
    }
}

fn seed_folder(id: &str, name: &str, now: i64) -> (r: FolderRow)
    ensures
        r@ == demo_folder(id@, name@, now),
        r.folder_id@ == id@,
        r.display_name.deep_view() == Some(name@),
        r.parent.deep_view() == Some("organizations/300000001"@),
        r.fetched_at == now,
{
    FolderRow {
        folder_id: id.to_owned(),
        display_name: Some(name.to_owned()),
        parent: Some("organizations/300000001".to_owned()),
        fetched_at: now,
    }
}

/// The texts of an optional string, as a list of none or one.
pub open spec fn at_most_one(o: Option<&str>) -> Seq<Seq<char>> {
    match o {
        Some(s) => seq![s@],
        None => Seq::empty(),
    }
}

fn seed(
    scope: Scope,
    scope_id: &str,
    short: &str,
    justification_required: bool,
    approver: Option<&str>,
    role: &str,
    max_secs: i64,
    now: i64,
) -> (r: EntitlementRow)
    ensures
        r@ == demo_entitlement(
            scope,
            scope_id@,
            short@,
            justification_required,
            at_most_one(approver),
            seq![role@],
            max_secs,
            now,
        ),
        r.name@ == scope.plural_text() + "/"@ + scope_id@ + "/locations/global"@
            + "/entitlements/"@ + short@,
        r.scope_type == scope,
        r.scope_id@ == scope_id@,
        r.short_name@ == short@,
        r.justification_required == justification_required,
        r.max_request_duration_secs == Some(max_secs),
        r.roles.deep_view() == seq![role@],
        approver matches Some(a) ==> r.approvers.deep_view() == seq![a@],
        approver is None ==> r.approvers.len() == 0,
        r.fetched_at == now,
{
    let mut name: String = parent(scope, scope_id);
    name.append("/entitlements/");
    name.append(short);
    let mut approvers: Vec<String> = Vec::new();
    if let Some(a) = approver {
        approvers.push(a.to_owned());
    }
    assert(approvers.deep_view() =~= at_most_one(approver));
    let mut roles: Vec<String> = Vec::new();
    roles.push(role.to_owned());
    assert(roles.deep_view() =~= seq![role@]);
    EntitlementRow {
        name,
        scope_type: scope,
        scope_id: scope_id.to_owned(),
        scope_display_name: None,
        short_name: short.to_owned(),
        max_request_duration_secs: Some(max_secs),
        justification_required,
        approvers,
        roles,
        raw_json: "{}".to_owned(),
        fetched_at: now,
        last_used_at: None,
    }
}

impl DemoBackend {
    /// No two grants share a name, and each has a number that was given out.
    pub open spec fn wf(&self) -> bool {
        self@.wf()
    }

    /// The demo as it starts.
    pub fn new() -> (r: Self)
        ensures
            r.wf(),
            exists|now: i64| #[trigger]
                schema::clock_reads(now) && r@ == DemoModel::seeded(now),
    {
        DemoBackend::seeded(now_unix())
    }

    /// The demo as it starts at a given time.
    pub fn seeded(now: i64) -> (r: Self)
        ensures
            r.wf(),
            r@ == DemoModel::seeded(now),
    {
        let mut projects: Vec<ProjectRow> = Vec::new();
        projects.push(seed_project("acme-prod-platform", "Acme Production Platform", now));
        projects.push(seed_project("acme-staging", "Acme Staging", now));
        projects.push(seed_project("acme-data-warehouse", "Data Warehouse", now));

        let mut folders: Vec<FolderRow> = Vec::new();
        folders.push(seed_folder("200000001", "Engineering", now));
        folders.push(seed_folder("200000002", "Platform Team", now));

        let mut organizations: Vec<OrganizationRow> = Vec::new();
        organizations.push(
            OrganizationRow {
                org_id: "300000001".to_owned(),
                display_name: Some("acme.example.com".to_owned()),
                fetched_at: now,
            },
        );

        let mut entitlements: Vec<EntitlementRow> = Vec::new();
        let (p, f, o) = (Scope::Project, Scope::Folder, Scope::Organization);
        entitlements.push(
            seed(
                p,
                "acme-prod-platform",
                "sre-break-glass",
                true,
                Some("user:on-call@acme.example.com"),
                "roles/owner",
                14400,
                now,
            ),
        );
        entitlements.push(
            seed(
                p,
                "acme-prod-platform",
                "logs-read",
                false,
                None,
                "roles/logging.viewer",
                28800,
                now,
            ),
        );
        entitlements.push(
            seed(p, "acme-staging", "admin-staging", false, None, "roles/editor", 28800, now),
        );
        entitlements.push(
            seed(
                p,
                "acme-data-warehouse",
                "bigquery-read",
                true,
                Some("group:data-stewards@acme.example.com"),
                "roles/bigquery.dataViewer",
                28800,
                now,
            ),
        );
        entitlements.push(
            seed(
                f,
                "200000001",
                "eng-admin",
                true,
                Some("group:eng-leads@acme.example.com"),
                "roles/resourcemanager.folderAdmin",
                14400,
                now,
            ),
        );
        entitlements.push(
            seed(
                f,
                "200000002",
                "platform-deploy",
                false,
                None,
                "roles/cloudbuild.builds.editor",
                28800,
                now,
            ),
        );
        entitlements.push(
            seed(
                o,
                "300000001",
                "org-billing-view",
                true,
                Some("group:finance@acme.example.com"),
                "roles/billing.viewer",
                28800,
                now,
            ),
        );
        entitlements.push(
            seed(
                o,
                "300000001",
                "org-audit-read",
                true,
                Some("group:security@acme.example.com"),
                "roles/iam.securityReviewer",
                28800,
                now,
            ),
        );

        let r = DemoBackend {
            projects,
            folders,
            organizations,
            entitlements,
            next_id: 0,
            grants: Table::new(),
        };
        proof {
            let m = DemoModel::seeded(now);
            assert(r@.projects =~= m.projects);
            assert(r@.folders =~= m.folders);
            assert(r@.organizations =~= m.organizations);
            assert(r@.entitlements =~= m.entitlements);
            assert(r@.grants =~= m.grants);
        }
        r
    }
}

impl Default for DemoBackend {
    fn default() -> (r: Self)
        ensures
            r.wf(),
            exists|now: i64| #[trigger]
                schema::clock_reads(now) && r@ == DemoModel::seeded(now),
    {
        DemoBackend::new()
    }
}

// ---------------------------------------------------------------------------
// Reading
// ---------------------------------------------------------------------------

/// An entitlement as a search returns it.
pub open spec fn found(e: EntitlementModel, target: TargetModel, now: i64) -> EntitlementModel {
    EntitlementModel { scope_display_name: target.display_name, fetched_at: now, ..e }
}

impl DemoModel {
    /// What a search of one scope returns: its entitlements, in order.
    pub open spec fn search(self, target: TargetModel, now: i64) -> Seq<EntitlementModel> {
        self.entitlements.filter(
            |e: EntitlementModel| e.scope_type == target.scope && e.scope_id == target.id,
        ).map_values(|e: EntitlementModel| found(e, target, now))
    }

    /// An entitlement's grants need no approval: it has no approvers, or is not
    /// known.
    pub open spec fn auto(self, name: Seq<char>) -> bool {
        match table::get(self.entitlements, name) {
            Some(e) => e.approvers.len() == 0,
            None => true,
        }
    }

    /// The name of the next grant of an entitlement.
    pub open spec fn next_name(self, entitlement_name: Seq<char>) -> Seq<char> {
        grant_name(entitlement_name, (self.next_id + 1) as nat)
    }

    /// A grant created.
    pub open spec fn with_grant(self, entitlement_name: Seq<char>) -> Self {
        DemoModel {
            next_id: (self.next_id + 1) as u64,
            grants: table::stored(
                self.grants,
                DemoGrantModel {
                    name: self.next_name(entitlement_name),
                    state: StateModel::Requested,
                    poll_count: 0,
                    auto: self.auto(entitlement_name),
                },
            ),
            ..self
        }
    }

    /// The state that polling a grant reports. A grant that is not known, such
    /// as one of an earlier session, has ended.
    pub open spec fn polled_state(self, name: Seq<char>) -> StateModel {
        match table::get(self.grants, name) {
            Some(g) => if g.auto || g.poll_count + 1 >= 2 {
                StateModel::Active
            } else {
                StateModel::ApprovalAwaited
            },
            None => StateModel::Ended,
        }
    }

    /// A grant polled.
    pub open spec fn with_poll(self, name: Seq<char>) -> Self {
        match table::get(self.grants, name) {
            Some(g) => DemoModel {
                grants: table::stored(
                    self.grants,
                    DemoGrantModel {
                        poll_count: (g.poll_count + 1) as u32,
                        state: self.polled_state(name),
                        ..g
                    },
                ),
                ..self
            },
            None => self,
        }
    }

    /// The number of polls of a grant can still be counted.
    pub open spec fn can_poll(self, name: Seq<char>) -> bool {
        table::get(self.grants, name) matches Some(g) ==> g.poll_count < u32::MAX
    }
}

/// The name of the grant with a number.
pub open spec fn grant_name(entitlement_name: Seq<char>, id: nat) -> Seq<char> {
    entitlement_name + "/grants/demo-"@ + text::zero_padded(numbers::decimal(id), 4)
}

impl DemoBackend {
    /// The projects, as of now.
    pub fn list_projects(&self, now: i64) -> (r: Vec<ProjectRow>)
        ensures
            cache::models(r@) == self@.projects.map_values(
                |p: ProjectModel| ProjectModel { fetched_at: now, ..p },
            ),
            r.len() == self@.projects.len(),
            forall|k: int|
                0 <= k < r.len() ==> (#[trigger] r@[k])@.project_id == self@.projects[k].project_id && r@[k]@.display_name
                    == self@.projects[k].display_name && r@[k]@.fetched_at == now,
    {
        let mut out: Vec<ProjectRow> = Vec::new();
        let mut i: usize = 0;
        while i < self.projects.len()
            invariant
                i <= self.projects.len(),
                out.len() == i,
                forall|k: int|
                    0 <= k < i ==> (#[trigger] out@[k])@ == (ProjectModel {
                        fetched_at: now,
                        ..self.projects@[k]@
                    }),
            decreases self.projects.len() - i,
        {
            let mut row: ProjectRow = self.projects[i].clone();
            row.fetched_at = now;
            out.push(row);
            i += 1;
        }
        assert(cache::models(out@) =~= self@.projects.map_values(
            |p: ProjectModel| ProjectModel { fetched_at: now, ..p },
        ));
        out
    }

    /// The folders, as of now.
    pub fn list_folders(&self, now: i64) -> (r: Vec<FolderRow>)
        ensures
            cache::models(r@) == self@.folders.map_values(
                |f: FolderModel| FolderModel { fetched_at: now, ..f },
            ),
            r.len() == self@.folders.len(),
            forall|k: int|
                0 <= k < r.len() ==> (#[trigger] r@[k])@.folder_id == self@.folders[k].folder_id && r@[k]@.display_name
                    == self@.folders[k].display_name && r@[k]@.fetched_at == now,
    {
        let mut out: Vec<FolderRow> = Vec::new();
        let mut i: usize = 0;
        while i < self.folders.len()
            invariant
                i <= self.folders.len(),
                out.len() == i,
                forall|k: int|
                    0 <= k < i ==> (#[trigger] out@[k])@ == (FolderModel {
                        fetched_at: now,
                        ..self.folders@[k]@
                    }),
            decreases self.folders.len() - i,
        {
            let mut row: FolderRow = self.folders[i].clone();
            row.fetched_at = now;
            out.push(row);
            i += 1;
        }
        assert(cache::models(out@) =~= self@.folders.map_values(
            |f: FolderModel| FolderModel { fetched_at: now, ..f },
        ));
        out
    }

    /// The organizations, as of now.
    pub fn list_organizations(&self, now: i64) -> (r: Vec<OrganizationRow>)
        ensures
            cache::models(r@) == self@.organizations.map_values(
                |o: OrganizationModel| OrganizationModel { fetched_at: now, ..o },
            ),
            r.len() == self@.organizations.len(),
            forall|k: int|
                0 <= k < r.len() ==> (#[trigger] r@[k])@.org_id == self@.organizations[k].org_id && r@[k]@.display_name
                    == self@.organizations[k].display_name && r@[k]@.fetched_at == now,
    {
        let mut out: Vec<OrganizationRow> = Vec::new();
        let mut i: usize = 0;
        while i < self.organizations.len()
            invariant
                i <= self.organizations.len(),
                out.len() == i,
                forall|k: int|
                    0 <= k < i ==> (#[trigger] out@[k])@ == (OrganizationModel {
                        fetched_at: now,
                        ..self.organizations@[k]@
                    }),
            decreases self.organizations.len() - i,
        {
            let mut row: OrganizationRow = self.organizations[i].clone();
            row.fetched_at = now;
            out.push(row);
            i += 1;
        }
        assert(cache::models(out@) =~= self@.organizations.map_values(
            |o: OrganizationModel| OrganizationModel { fetched_at: now, ..o },
        ));
        out
    }

    /// The entitlements of one scope, as of now, with the scope's name.
    pub fn search_entitlements(&self, target: &ScopeTarget, now: i64) -> (r: Vec<EntitlementRow>)
        ensures
            rows::entitlement_models(r@) == self@.search(target@, now),
    {
        let ghost keep = |e: EntitlementModel|
            e.scope_type == target@.scope && e.scope_id == target@.id;
        let ghost stamp = |e: EntitlementModel| found(e, target@, now);
        let ghost all = self@.entitlements;
        let mut out: Vec<EntitlementRow> = Vec::new();
        let mut i: usize = 0;
        proof {
            reveal(Seq::filter);
            assert(all.take(0) =~= Seq::empty());
            assert(rows::entitlement_models(out@) =~= all.take(0).filter(keep).map_values(stamp));
        }
        while i < self.entitlements.len()
            invariant
                i <= self.entitlements.len(),
                all == rows::entitlement_models(self.entitlements@),
                keep == (|e: EntitlementModel|
                    e.scope_type == target@.scope && e.scope_id == target@.id),
                stamp == (|e: EntitlementModel| found(e, target@, now)),
                rows::entitlement_models(out@) == all.take(i as int).filter(keep).map_values(stamp),
            decreases self.entitlements.len() - i,
        {
            let e: &EntitlementRow = &self.entitlements[i];
            let ghost before = rows::entitlement_models(out@);
            proof {
                assert(all[i as int] == e@);
                assert(all.take(i + 1) =~= all.take(i as int).push(e@));
                all.take(i as int).lemma_filter_push(e@, keep);
            }
            if e.scope_type == target.scope && *e.scope_id.as_str() == *target.id.as_str() {
                let mut row: EntitlementRow = e.clone();
                row.scope_display_name = target.display_name.clone();
                row.fetched_at = now;
                out.push(row);
                assert(rows::entitlement_models(out@) =~= before.push(found(e@, target@, now)));
                assert(all.take(i + 1).filter(keep).map_values(stamp) =~= all.take(
                    i as int,
                ).filter(keep).map_values(stamp).push(found(e@, target@, now)));
            }
            i += 1;
        }
        assert(all.take(i as int) =~= all);
        out
    }

    /// Tells whether an entitlement's grants need no approval.
    fn entitlement_auto(&self, entitlement_name: &str) -> (r: bool)
        ensures
            r == self@.auto(entitlement_name@),
    {
        let ghost all = self@.entitlements;
        let mut i: usize = 0;
        while i < self.entitlements.len()
            invariant
                i <= self.entitlements.len(),
                all == self@.entitlements,
                all == rows::entitlement_models(self.entitlements@),
                forall|j: int| 0 <= j < i ==> (#[trigger] all[j]).key() != entitlement_name@,
            decreases self.entitlements.len() - i,
        {
            assert(all[i as int] == self.entitlements@[i as int]@);
            if *self.entitlements[i].name.as_str() == *entitlement_name {
                proof {
                    table::lemma_slot_is(all, entitlement_name@, i as int);
                }
                return self.entitlements[i].approvers.len() == 0;
            }
            i += 1;
        }
        proof {
            table::lemma_slot_is(all, entitlement_name@, all.len() as int);
        }
        true
    }

    /// Creates a grant and returns its name. The duration and the
    /// justification make no difference here.
    pub fn create_grant(&mut self, entitlement_name: &str) -> (r: String)
        requires
            old(self).wf(),
            old(self)@.next_id < u64::MAX,
        ensures
            final(self).wf(),
            final(self)@ == old(self)@.with_grant(entitlement_name@),
            r@ == old(self)@.next_name(entitlement_name@),
            (entitlement_name@ + "/grants/demo-"@).is_prefix_of(r@),
            final(self)@.next_id == old(self)@.next_id + 1,
            final(self)@.entitlements == old(self)@.entitlements,
    {
        let auto: bool = self.entitlement_auto(entitlement_name);
        let ghost before = self@;
        self.next_id = self.next_id + 1;
        let id: String = zero_pad(u64_text(self.next_id).as_str(), 4);
        let mut name: String = entitlement_name.to_owned();
        name.append("/grants/demo-");
        name.append(id.as_str());
        proof {
            lemma_create_keeps_wf(before, entitlement_name@);
        }
        self.grants.put(
            DemoGrant {
                name: name.as_str().to_owned(),
                state: GrantState::Requested,
                poll_count: 0,
                auto,
            },
        );
        name
    }

    /// The state of a grant. A grant that needs no approval is active at its
    /// first poll, another one at its second.
    pub fn get_grant_state(&mut self, grant_name: &str) -> (r: GrantState)
        requires
            old(self).wf(),
            old(self)@.can_poll(grant_name@),
        ensures
            final(self).wf(),
            final(self)@ == old(self)@.with_poll(grant_name@),
            r@ == old(self)@.polled_state(grant_name@),
    {
        proof {
            lemma_poll_keeps_wf(self@, grant_name@);
        }
        match self.grants.find(grant_name) {
            Some(i) => {
                let g: &DemoGrant = self.grants.at(i);
                let poll_count: u32 = g.poll_count + 1;
                let auto: bool = g.auto;
                let name: String = g.name.as_str().to_owned();
                let state: GrantState = if auto || poll_count >= 2 {
                    GrantState::Active
                } else {
                    GrantState::ApprovalAwaited
                };
                self.grants.put(DemoGrant { name, state: state.clone(), poll_count, auto });
                state
            },
            None => GrantState::Ended,
        }
    }
}

// ---------------------------------------------------------------------------
// Laws
// ---------------------------------------------------------------------------

/// A name of a grant with a number of at most `n`.
pub open spec fn named_by(name: Seq<char>, n: nat) -> bool {
    exists|e: Seq<char>, k: nat| k <= n && name == #[trigger] grant_name(e, k)
}

impl DemoModel {
    /// No two grants share a name, and each has a number that was given out.
    pub open spec fn wf(self) -> bool {
        &&& table::distinct(self.grants)
        &&& forall|i: int|
            0 <= i < self.grants.len() ==> named_by(
                (#[trigger] self.grants[i]).name,
                self.next_id as nat,
            )
    }
}

proof fn lemma_create_keeps_wf(d: DemoModel, entitlement_name: Seq<char>)
    requires
        d.wf(),
        d.next_id < u64::MAX,
    ensures
        d.with_grant(entitlement_name).wf(),
{
    let name = d.next_name(entitlement_name);
    let g = DemoGrantModel {
        name,
        state: StateModel::Requested,
        poll_count: 0,
        auto: d.auto(entitlement_name),
    };
    let after = d.with_grant(entitlement_name);
    table::lemma_stored(d.grants, g);
    table::lemma_slot(d.grants, name);
    assert(named_by(name, after.next_id as nat)) by {
        assert(name == grant_name(entitlement_name, after.next_id as nat));
    }
    assert forall|i: int| 0 <= i < after.grants.len() implies named_by(
        (#[trigger] after.grants[i]).name,
        after.next_id as nat,
    ) by {
        if after.grants[i] != g {
            assert(after.grants[i] == d.grants[i]);
            assert(named_by(d.grants[i].name, d.next_id as nat));
        }
    }
}

proof fn lemma_poll_keeps_wf(d: DemoModel, name: Seq<char>)
    requires
        d.wf(),
    ensures
        d.with_poll(name).wf(),
{
    if table::holds(d.grants, name) {
        table::lemma_slot(d.grants, name);
        let old_grant = table::get(d.grants, name)->0;
        let g = DemoGrantModel {
            poll_count: (old_grant.poll_count + 1) as u32,
            state: d.polled_state(name),
            ..old_grant
        };
        table::lemma_stored(d.grants, g);
        let after = d.with_poll(name);
        assert forall|i: int| 0 <= i < after.grants.len() implies named_by(
            (#[trigger] after.grants[i]).name,
            after.next_id as nat,
        ) by {
            assert(after.grants[i].name == d.grants[i].name);
        }
    }
}

proof fn lemma_padded_value(n: nat)
    ensures
        numbers::digits_value(text::zero_padded(numbers::decimal(n), 4)) == n,
        !text::zero_padded(numbers::decimal(n), 4).contains('-'),
{
    numbers::law_decimal_reads_back(n);
    let d = numbers::decimal(n);
    let p = text::zero_padded(d, 4);
    let zeros = (p.len() - d.len()) as nat;
    lemma_leading_zeros(zeros, d);
    assert(p =~= text::repeated('0', zeros) + d);
    if p.contains('-') {
        let i = choose|i: int| 0 <= i < p.len() && p[i] == '-';
        if i >= zeros {
            assert(text::is_digit(d[i - zeros]));
        }
    }
}

proof fn lemma_leading_zeros(n: nat, d: Seq<char>)
    ensures
        numbers::digits_value(text::repeated('0', n) + d) == numbers::digits_value(d),
    decreases d.len(), n,
{
    let p = text::repeated('0', n) + d;
    if d.len() > 0 {
        lemma_leading_zeros(n, d.drop_last());
        assert(p.drop_last() =~= text::repeated('0', n) + d.drop_last());
    } else if n > 0 {
        lemma_leading_zeros((n - 1) as nat, d);
        assert(p.drop_last() =~= text::repeated('0', (n - 1) as nat) + d);
    } else {
        assert(p =~= d);
    }
}

/// Grants with different numbers have different names, whatever entitlements
/// they belong to.
pub proof fn law_numbers_tell_names_apart(e: Seq<char>, k: nat, f: Seq<char>, l: nat)
    requires
        k != l,
    ensures
        grant_name(e, k) != grant_name(f, l),
{
    let a = text::zero_padded(numbers::decimal(k), 4);
    let b = text::zero_padded(numbers::decimal(l), 4);
    lemma_padded_value(k);
    lemma_padded_value(l);
    reveal_strlit("/grants/demo-");
    let x = e + "/grants/demo-"@;
    let y = f + "/grants/demo-"@;
    assert(x.len() > 0 && x.last() == '-');
    assert(y.len() > 0 && y.last() == '-');
    if x + a == y + b {
        let s = x + a;
        assert(s.len() == (y + b).len());
        assert(x.len() + a.len() == y.len() + b.len());
        if a.len() < b.len() {
            assert(s[x.len() - 1] == '-');
            assert((y + b)[x.len() - 1] == b[x.len() - 1 - y.len()]);
            assert(b.contains('-'));
        } else if b.len() < a.len() {
            assert((y + b)[y.len() - 1] == '-');
            assert(s[y.len() - 1] == a[y.len() - 1 - x.len()]);
            assert(a.contains('-'));
        } else {
            assert(s.skip(x.len() as int) =~= a);
            assert((y + b).skip(y.len() as int) =~= b);
            assert(a == b);
        }
    }
}

/// A created grant never takes the name of another one.
pub proof fn law_created_is_fresh(d: DemoModel, entitlement_name: Seq<char>)
    requires
        d.wf(),
        d.next_id < u64::MAX,
    ensures
        !table::holds(d.grants, d.next_name(entitlement_name)),
        table::get(
            d.with_grant(entitlement_name).grants,
            d.next_name(entitlement_name),
        ) matches Some(g) && g.state == StateModel::Requested && g.poll_count == 0,
{
    let name = d.next_name(entitlement_name);
    table::lemma_slot(d.grants, name);
    if table::holds(d.grants, name) {
        let i = table::slot(d.grants, name);
        assert(named_by(d.grants[i].name, d.next_id as nat));
        let (e, k) = choose|e: Seq<char>, k: nat|
            k <= d.next_id as nat && d.grants[i].name == #[trigger] grant_name(e, k);
        law_numbers_tell_names_apart(e, k, entitlement_name, (d.next_id + 1) as nat);
    }
    let g = DemoGrantModel {
        name,
        state: StateModel::Requested,
        poll_count: 0,
        auto: d.auto(entitlement_name),
    };
    table::lemma_stored(d.grants, g);
}

/// A grant without approvers is active at its first poll; one with approvers
/// awaits approval at its first poll and is active at its second.
pub proof fn law_grant_becomes_active(d: DemoModel, entitlement_name: Seq<char>)
    requires
        d.wf(),
        d.next_id < u64::MAX,
    ensures
        ({
            let name = d.next_name(entitlement_name);
            let created = d.with_grant(entitlement_name);
            let once = created.with_poll(name);
            &&& created.polled_state(name) == (if d.auto(entitlement_name) {
                StateModel::Active
            } else {
                StateModel::ApprovalAwaited
            })
            &&& once.polled_state(name) == StateModel::Active
        }),
{
    law_created_is_fresh(d, entitlement_name);
    let name = d.next_name(entitlement_name);
    let created = d.with_grant(entitlement_name);
    lemma_create_keeps_wf(d, entitlement_name);
    table::lemma_slot(created.grants, name);
    let g = table::get(created.grants, name)->0;
    let polled = DemoGrantModel {
        poll_count: (g.poll_count + 1) as u32,
        state: created.polled_state(name),
        ..g
    };
    table::lemma_stored(
        d.grants,
        DemoGrantModel {
            name,
            state: StateModel::Requested,
            poll_count: 0,
            auto: d.auto(entitlement_name),
        },
    );
    table::lemma_stored(created.grants, polled);
}

/// A grant that was reported active is reported active again, as long as its
/// polls can be counted.
pub proof fn law_active_stays_active(d: DemoModel, name: Seq<char>)
    requires
        d.wf(),
        d.can_poll(name),
        d.polled_state(name) == StateModel::Active,
    ensures
        d.with_poll(name).polled_state(name) == StateModel::Active,
{
    table::lemma_slot(d.grants, name);
    let g = table::get(d.grants, name)->0;
    let polled = DemoGrantModel {
        poll_count: (g.poll_count + 1) as u32,
        state: d.polled_state(name),
        ..g
    };
    table::lemma_stored(d.grants, polled);
}

/// Polling a grant that is not known reports its end and changes nothing.
pub proof fn law_unknown_grant_has_ended(d: DemoModel, name: Seq<char>)
    requires
        !table::holds(d.grants, name),
    ensures
        d.polled_state(name) == StateModel::Ended,
        d.with_poll(name) == d,
{
}

/// The name of a grant is that of its entitlement, and then a number of at least
/// four digits, counted up from one.
pub proof fn law_names_count_up(d: DemoModel, entitlement_name: Seq<char>)
    requires
        d.next_id < u64::MAX,
    ensures
        ({
            let name = d.next_name(entitlement_name);
            let head = entitlement_name + "/grants/demo-"@;
            let digits = name.skip(head.len() as int);
            &&& head.is_prefix_of(name)
            &&& digits.len() >= 4
            &&& numbers::digits_value(digits) == d.next_id + 1
            &&& d.with_grant(entitlement_name).next_id == d.next_id + 1
        }),
        DemoModel::seeded(0).next_id == 0,
{
    let head = entitlement_name + "/grants/demo-"@;
    let digits = text::zero_padded(numbers::decimal((d.next_id + 1) as nat), 4);
    lemma_padded_value((d.next_id + 1) as nat);
    assert((head + digits).skip(head.len() as int) =~= digits);
    assert((head + digits).take(head.len() as int) =~= head);
}

/// A grant of an entitlement with approvers waits at its first poll; one of an
/// entitlement without any, or of one that is not known, is active at once.
pub proof fn law_approvers_make_grants_wait(
    d: DemoModel,
    entitlement_name: Seq<char>,
    e: EntitlementModel,
)
    requires
        d.wf(),
        d.next_id < u64::MAX,
    ensures
        ({
            let state = d.with_grant(entitlement_name).polled_state(
                d.next_name(entitlement_name),
            );
            &&& table::get(d.entitlements, entitlement_name) == Some(e) && e.approvers.len() > 0
                ==> state == StateModel::ApprovalAwaited
            &&& table::get(d.entitlements, entitlement_name) == Some(e) && e.approvers.len() == 0
                ==> state == StateModel::Active
            &&& !table::holds(d.entitlements, entitlement_name) ==> state == StateModel::Active
        }),
{
    law_grant_becomes_active(d, entitlement_name);
}

/// Creating or polling a grant leaves the other grants, and what can be
/// requested, as they were. A poll keeps the state that it reports.
pub proof fn law_grants_do_not_interfere(
    d: DemoModel,
    entitlement_name: Seq<char>,
    polled: Seq<char>,
    other: Seq<char>,
)
    requires
        d.wf(),
        d.next_id < u64::MAX,
        d.can_poll(polled),
    ensures
        other != d.next_name(entitlement_name) ==> table::get(
            d.with_grant(entitlement_name).grants,
            other,
        ) == table::get(d.grants, other),
        other != polled ==> table::get(d.with_poll(polled).grants, other) == table::get(
            d.grants,
            other,
        ),
        table::get(d.grants, polled) matches Some(g) ==> (table::get(
            d.with_poll(polled).grants,
            polled,
        ) matches Some(h) && h.state == d.polled_state(polled) && h.poll_count == g.poll_count + 1
            && h.auto == g.auto),
        d.with_grant(entitlement_name).entitlements == d.entitlements,
        d.with_grant(entitlement_name).projects == d.projects,
        d.with_grant(entitlement_name).folders == d.folders,
        d.with_grant(entitlement_name).organizations == d.organizations,
        d.with_poll(polled).entitlements == d.entitlements,
        d.with_poll(polled).projects == d.projects,
        d.with_poll(polled).folders == d.folders,
        d.with_poll(polled).organizations == d.organizations,
        d.with_poll(polled).next_id == d.next_id,
{
    table::lemma_stored(
        d.grants,
        DemoGrantModel {
            name: d.next_name(entitlement_name),
            state: StateModel::Requested,
            poll_count: 0,
            auto: d.auto(entitlement_name),
        },
    );
    if table::holds(d.grants, polled) {
        table::lemma_slot(d.grants, polled);
        let g = table::get(d.grants, polled)->0;
        table::lemma_stored(
            d.grants,
            DemoGrantModel {
                poll_count: (g.poll_count + 1) as u32,
                state: d.polled_state(polled),
                ..g
            },
        );
    }
}

/// A search finds exactly the entitlements of the scope, in order, each as it is
/// but for the scope's name and the time.
pub proof fn law_search_goes_by_scope(
    d: DemoModel,
    more: DemoModel,
    e: EntitlementModel,
    target: TargetModel,
    now: i64,
)
    requires
        more.entitlements == d.entitlements.push(e),
    ensures
        d.entitlements.len() == 0 ==> d.search(target, now).len() == 0,
        e.scope_type != target.scope ==> more.search(target, now) == d.search(target, now),
        e.scope_id != target.id ==> more.search(target, now) == d.search(target, now),
        e.scope_type == target.scope && e.scope_id == target.id ==> ({
            let r = more.search(target, now);
            &&& r.len() == d.search(target, now).len() + 1
            &&& r.drop_last() == d.search(target, now)
            &&& r.last().name == e.name
            &&& r.last().scope_type == e.scope_type
            &&& r.last().scope_id == e.scope_id
            &&& r.last().scope_display_name == target.display_name
            &&& r.last().short_name == e.short_name
            &&& r.last().max_request_duration_secs == e.max_request_duration_secs
            &&& r.last().justification_required == e.justification_required
            &&& r.last().approvers == e.approvers
            &&& r.last().roles == e.roles
            &&& r.last().raw_json == e.raw_json
            &&& r.last().last_used_at == e.last_used_at
            &&& r.last().fetched_at == now
        }),
{
    reveal(Seq::filter);
    let keep = |e: EntitlementModel| e.scope_type == target.scope && e.scope_id == target.id;
    d.entitlements.lemma_filter_push(e, keep);
    let stamp = |e: EntitlementModel| found(e, target, now);
    let kept = d.entitlements.filter(keep);
    if keep(e) {
        assert(kept.push(e).map_values(stamp) =~= kept.map_values(stamp).push(found(e, target, now)));
        assert(kept.push(e).map_values(stamp).drop_last() =~= kept.map_values(stamp));
    }
}

/// A seeded entitlement is one of its scope, with the name, the maximum and the
/// roles that it was given.
pub proof fn law_seeded_as_given(
    scope: Scope,
    id: Seq<char>,
    short: Seq<char>,
    needs_reason: bool,
    approvers: Seq<Seq<char>>,
    roles: Seq<Seq<char>>,
    max: i64,
    now: i64,
)
    ensures
        ({
            let e = demo_entitlement(scope, id, short, needs_reason, approvers, roles, max, now);
            &&& e.scope_type == scope
            &&& e.scope_id == id
            &&& e.short_name == short
            &&& entitlements::parent_name(scope, id).is_prefix_of(e.name)
            &&& text::ends_with(e.name, "/entitlements/"@ + short)
            &&& e.justification_required == needs_reason
            &&& e.approvers == approvers
            &&& e.roles == roles
            &&& e.max_request_duration_secs == Some(max)
            &&& e.scope_display_name is None
            &&& e.last_used_at is None
            &&& e.fetched_at == now
        }),
{
    let p = entitlements::parent_name(scope, id);
    let e = demo_entitlement(scope, id, short, needs_reason, approvers, roles, max, now);
    text::lemma_assoc(p, "/entitlements/"@, short);
    assert(e.name.take(p.len() as int) =~= p);
    assert(e.name.skip(p.len() as int) =~= "/entitlements/"@ + short);
}

/// In the seed an entitlement asks for a reason exactly where it has an approver,
/// and nobody may have one for longer than eight hours. There is one for every
/// scope, and every scope of one is among those that are listed.
pub proof fn law_seed_hangs_together(now: i64, i: int)
    requires
        0 <= i < 8,
    ensures
        ({
            let d = DemoModel::seeded(now);
            let e = d.entitlements[i];
            &&& d.entitlements.len() == 8
            &&& d.projects.len() == 3
            &&& d.folders.len() == 2
            &&& d.organizations.len() == 1
            &&& d.grants.len() == 0
            &&& e.justification_required == (e.approvers.len() > 0)
            &&& e.approvers.len() <= 1
            &&& e.roles.len() == 1
            &&& e.max_request_duration_secs matches Some(max) && max == (if i == 0 || i == 4 {
                4int
            } else {
                8int
            }) * 3600
            &&& e.justification_required == !(i == 1 || i == 2 || i == 5)
            &&& e.scope_type is Project ==> e.scope_id == d.projects[if i < 2 {
                0
            } else {
                i - 1
            }].project_id
            &&& e.scope_type is Folder ==> e.scope_id == d.folders[i - 4].folder_id
            &&& e.scope_type is Organization ==> e.scope_id == d.organizations[0].org_id
            &&& e.scope_type is Project <==> i < 4
            &&& e.scope_type is Organization <==> i >= 6
        }),
{
}

} // verus!
