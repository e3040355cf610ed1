//! The rows of the cache: what callers store and read, what the tables hold,
//! and what each row says as characters and numbers.
use vstd::prelude::*;
use vstd::string::*;
use crate::gcp::Scope;
use crate::table::{Keyed, Row};

verus! {

/// An entitlement that the account can request.
#[derive(Debug)]
pub struct EntitlementRow {
    pub name: String,
    pub scope_type: Scope,
    pub scope_id: String,
    /// The scope's human-readable name. Looked up in the scope tables when a
    /// row is read, or taken from discovery; not stored with the entitlement.
    pub scope_display_name: Option<String>,
    pub short_name: String,
    pub max_request_duration_secs: Option<i64>,
    pub justification_required: bool,
    pub approvers: Vec<String>,
    pub roles: Vec<String>,
    pub raw_json: String,
    pub fetched_at: i64,
    pub last_used_at: Option<i64>,
}

/// A project.
#[derive(Debug)]
pub struct ProjectRow {
    pub project_id: String,
    pub display_name: Option<String>,
    pub state: Option<String>,
    pub fetched_at: i64,
}

/// A folder.
#[derive(Debug)]
pub struct FolderRow {
    pub folder_id: String,
    pub display_name: Option<String>,
    pub parent: Option<String>,
    pub fetched_at: i64,
}

/// An organization.
#[derive(Debug)]
pub struct OrganizationRow {
    pub org_id: String,
    pub display_name: Option<String>,
    pub fetched_at: i64,
}

/// A grant that was requested.
#[derive(Debug)]
pub struct GrantRow {
    pub name: String,
    pub entitlement_name: String,
    pub entitlement_short_name: String,
    pub scope_type: Scope,
    pub scope_id: String,
    /// Looked up in the scope tables when a row is read; not stored.
    pub scope_display_name: Option<String>,
    pub short_id: String,
    pub state: String,
    pub requested_duration_secs: i64,
    pub justification: Option<String>,
    pub created_at: i64,
    pub activated_at: Option<i64>,
    pub expires_at: Option<i64>,
    pub last_polled_at: Option<i64>,
    pub raw_json: Option<String>,
}

/// An entry of the `meta` table.
#[derive(Debug)]
pub struct MetaRow {
    pub key: String,
    pub value: String,
}

/// An entitlement as its table holds it: the scope by name, the lists as JSON,
/// the flag as a number.
#[derive(Debug)]
pub struct StoredEntitlement {
    pub name: String,
    pub scope_type: String,
    pub scope_id: String,
    pub short_name: String,
    pub max_request_duration_secs: Option<i64>,
    pub justification_required: i64,
    pub approvers_json: String,
    pub roles_json: String,
    pub raw_json: String,
    pub fetched_at: i64,
    pub last_used_at: Option<i64>,
}

/// A grant as its table holds it: the scope by name.
#[derive(Debug)]
pub struct StoredGrant {
    pub name: String,
    pub entitlement_name: String,
    pub entitlement_short_name: String,
    pub scope_type: String,
    pub scope_id: String,
    pub short_id: String,
    pub state: String,
    pub requested_duration_secs: i64,
    pub justification: Option<String>,
    pub created_at: i64,
    pub activated_at: Option<i64>,
    pub expires_at: Option<i64>,
    pub last_polled_at: Option<i64>,
    pub raw_json: Option<String>,
}

// ---------------------------------------------------------------------------
// What the rows say
// ---------------------------------------------------------------------------

pub ghost struct EntitlementModel {
    pub name: Seq<char>,
    pub scope_type: Scope,
    pub scope_id: Seq<char>,
    pub scope_display_name: Option<Seq<char>>,
    pub short_name: Seq<char>,
    pub max_request_duration_secs: Option<i64>,
    pub justification_required: bool,
    pub approvers: Seq<Seq<char>>,
    pub roles: Seq<Seq<char>>,
    pub raw_json: Seq<char>,
    pub fetched_at: i64,
    pub last_used_at: Option<i64>,
}

pub ghost struct ProjectModel {
    pub project_id: Seq<char>,
    pub display_name: Option<Seq<char>>,
    pub state: Option<Seq<char>>,
    pub fetched_at: i64,
}

pub ghost struct FolderModel {
    pub folder_id: Seq<char>,
    pub display_name: Option<Seq<char>>,
    pub parent: Option<Seq<char>>,
    pub fetched_at: i64,
}

pub ghost struct OrganizationModel {
    pub org_id: Seq<char>,
    pub display_name: Option<Seq<char>>,
    pub fetched_at: i64,
}

pub ghost struct GrantModel {
    pub name: Seq<char>,
    pub entitlement_name: Seq<char>,
    pub entitlement_short_name: Seq<char>,
    pub scope_type: Scope,
    pub scope_id: Seq<char>,
    pub scope_display_name: Option<Seq<char>>,
    pub short_id: Seq<char>,
    pub state: Seq<char>,
    pub requested_duration_secs: i64,
    pub justification: Option<Seq<char>>,
    pub created_at: i64,
    pub activated_at: Option<i64>,
    pub expires_at: Option<i64>,
    pub last_polled_at: Option<i64>,
    pub raw_json: Option<Seq<char>>,
}

pub ghost struct MetaModel {
    pub key: Seq<char>,
    pub value: Seq<char>,
}

pub ghost struct StoredEntitlementModel {
    pub name: Seq<char>,
    pub scope_type: Seq<char>,
    pub scope_id: Seq<char>,
    pub short_name: Seq<char>,
    pub max_request_duration_secs: Option<i64>,
    pub justification_required: i64,
    pub approvers_json: Seq<char>,
    pub roles_json: Seq<char>,
    pub raw_json: Seq<char>,
    pub fetched_at: i64,
    pub last_used_at: Option<i64>,
}

pub ghost struct StoredGrantModel {
    pub name: Seq<char>,
    pub entitlement_name: Seq<char>,
    pub entitlement_short_name: Seq<char>,
    pub scope_type: Seq<char>,
    pub scope_id: Seq<char>,
    pub short_id: Seq<char>,
    pub state: Seq<char>,
    pub requested_duration_secs: i64,
    pub justification: Option<Seq<char>>,
    pub created_at: i64,
    pub activated_at: Option<i64>,
    pub expires_at: Option<i64>,
    pub last_polled_at: Option<i64>,
    pub raw_json: Option<Seq<char>>,
}

impl View for EntitlementRow {
    type V = EntitlementModel;

    open spec fn view(&self) -> EntitlementModel {
        EntitlementModel {
            name: self.name@,
            scope_type: self.scope_type,
            scope_id: self.scope_id@,
            scope_display_name: self.scope_display_name.deep_view(),
            short_name: self.short_name@,
            max_request_duration_secs: self.max_request_duration_secs,
            justification_required: self.justification_required,
            approvers: self.approvers.deep_view(),
            roles: self.roles.deep_view(),
            raw_json: self.raw_json@,
            fetched_at: self.fetched_at,
            last_used_at: self.last_used_at,
        }
    }
}

impl View for ProjectRow {
    type V = ProjectModel;

    open spec fn view(&self) -> ProjectModel {
        ProjectModel {
            project_id: self.project_id@,
            display_name: self.display_name.deep_view(),
            state: self.state.deep_view(),
            fetched_at: self.fetched_at,
        }
    }
}

impl View for FolderRow {
    type V = FolderModel;

    open spec fn view(&self) -> FolderModel {
        FolderModel {
            folder_id: self.folder_id@,
            display_name: self.display_name.deep_view(),
            parent: self.parent.deep_view(),
            fetched_at: self.fetched_at,
        }
    }
}

impl View for OrganizationRow {
    type V = OrganizationModel;

    open spec fn view(&self) -> OrganizationModel {
        OrganizationModel {
            org_id: self.org_id@,
            display_name: self.display_name.deep_view(),
            fetched_at: self.fetched_at,
        }
    }
}

impl View for GrantRow {
    type V = GrantModel;

    open spec fn view(&self) -> GrantModel {
        GrantModel {
            name: self.name@,
            entitlement_name: self.entitlement_name@,
            entitlement_short_name: self.entitlement_short_name@,
            scope_type: self.scope_type,
            scope_id: self.scope_id@,
            scope_display_name: self.scope_display_name.deep_view(),
            short_id: self.short_id@,
            state: self.state@,
            requested_duration_secs: self.requested_duration_secs,
            justification: self.justification.deep_view(),
            created_at: self.created_at,
            activated_at: self.activated_at,
            expires_at: self.expires_at,
            last_polled_at: self.last_polled_at,
            raw_json: self.raw_json.deep_view(),
        }
    }
}

impl View for MetaRow {
    type V = MetaModel;

    open spec fn view(&self) -> MetaModel {
        MetaModel { key: self.key@, value: self.value@ }
    }
}

impl View for StoredEntitlement {
    type V = StoredEntitlementModel;

    open spec fn view(&self) -> StoredEntitlementModel {
        StoredEntitlementModel {
            name: self.name@,
            scope_type: self.scope_type@,
            scope_id: self.scope_id@,
            short_name: self.short_name@,
            max_request_duration_secs: self.max_request_duration_secs,
            justification_required: self.justification_required,
            approvers_json: self.approvers_json@,
            roles_json: self.roles_json@,
            raw_json: self.raw_json@,
            fetched_at: self.fetched_at,
            last_used_at: self.last_used_at,
        }
    }
}

impl View for StoredGrant {
    type V = StoredGrantModel;

    open spec fn view(&self) -> StoredGrantModel {
        StoredGrantModel {
            name: self.name@,
            entitlement_name: self.entitlement_name@,
            entitlement_short_name: self.entitlement_short_name@,
            scope_type: self.scope_type@,
            scope_id: self.scope_id@,
            short_id: self.short_id@,
            state: self.state@,
            requested_duration_secs: self.requested_duration_secs,
            justification: self.justification.deep_view(),
            created_at: self.created_at,
            activated_at: self.activated_at,
            expires_at: self.expires_at,
            last_polled_at: self.last_polled_at,
            raw_json: self.raw_json.deep_view(),
        }
    }
}

// ---------------------------------------------------------------------------
// Keys
// ---------------------------------------------------------------------------

impl Keyed for EntitlementModel {
    open spec fn key(self) -> Seq<char> {
        self.name
    }
}

impl Keyed for ProjectModel {
    open spec fn key(self) -> Seq<char> {
        self.project_id
    }
}

impl Keyed for FolderModel {
    open spec fn key(self) -> Seq<char> {
        self.folder_id
    }
}

impl Keyed for OrganizationModel {
    open spec fn key(self) -> Seq<char> {
        self.org_id
    }
}

impl Keyed for MetaModel {
    open spec fn key(self) -> Seq<char> {
        self.key
    }
}

impl Keyed for StoredEntitlementModel {
    open spec fn key(self) -> Seq<char> {
        self.name
    }
}

impl Keyed for StoredGrantModel {
    open spec fn key(self) -> Seq<char> {
        self.name
    }
}

impl Row for ProjectRow {
    type M = ProjectModel;

    open spec fn model(&self) -> ProjectModel {
        self@
    }

    fn row_key(&self) -> (r: &str) {
        assert(self@.key() == self.project_id@);
        self.project_id.as_str()
    }
}

impl Row for FolderRow {
    type M = FolderModel;

    open spec fn model(&self) -> FolderModel {
        self@
    }

    fn row_key(&self) -> (r: &str) {
        assert(self@.key() == self.folder_id@);
        self.folder_id.as_str()
    }
}

impl Row for OrganizationRow {
    type M = OrganizationModel;

    open spec fn model(&self) -> OrganizationModel {
        self@
    }

    fn row_key(&self) -> (r: &str) {
        assert(self@.key() == self.org_id@);
        self.org_id.as_str()
    }
}

impl Row for MetaRow {
    type M = MetaModel;

    open spec fn model(&self) -> MetaModel {
        self@
    }

    fn row_key(&self) -> (r: &str) {
        assert(self@.key() == self.key@);
        self.key.as_str()
    }
}

impl Row for StoredEntitlement {
    type M = StoredEntitlementModel;

    open spec fn model(&self) -> StoredEntitlementModel {
        self@
    }

    fn row_key(&self) -> (r: &str) {
        assert(self@.key() == self.name@);
        self.name.as_str()
    }
}

impl Row for StoredGrant {
    type M = StoredGrantModel;

    open spec fn model(&self) -> StoredGrantModel {
        self@
    }

    fn row_key(&self) -> (r: &str) {
        assert(self@.key() == self.name@);
        self.name.as_str()
    }
}

// ---------------------------------------------------------------------------
// Copies
// ---------------------------------------------------------------------------

impl Clone for EntitlementRow {
    fn clone(&self) -> (r: Self)
        ensures
            r@ == self@,
    {
        EntitlementRow {
            name: self.name.as_str().to_owned(),
            scope_type: self.scope_type,
            scope_id: self.scope_id.as_str().to_owned(),
            scope_display_name: self.scope_display_name.clone(),
            short_name: self.short_name.as_str().to_owned(),
            max_request_duration_secs: self.max_request_duration_secs,
            justification_required: self.justification_required,
            approvers: self.approvers.clone(),
            roles: self.roles.clone(),
            raw_json: self.raw_json.as_str().to_owned(),
            fetched_at: self.fetched_at,
            last_used_at: self.last_used_at,
        }
    }
}

impl Clone for ProjectRow {
    fn clone(&self) -> (r: Self)
        ensures
            r@ == self@,
    {
        ProjectRow {
            project_id: self.project_id.as_str().to_owned(),
            display_name: self.display_name.clone(),
            state: self.state.clone(),
            fetched_at: self.fetched_at,
        }
    }
}

impl Clone for FolderRow {
    fn clone(&self) -> (r: Self)
        ensures
            r@ == self@,
    {
        FolderRow {
            folder_id: self.folder_id.as_str().to_owned(),
            display_name: self.display_name.clone(),
            parent: self.parent.clone(),
            fetched_at: self.fetched_at,
        }
    }
}

impl Clone for OrganizationRow {
    fn clone(&self) -> (r: Self)
        ensures
            r@ == self@,
    {
        OrganizationRow {
            org_id: self.org_id.as_str().to_owned(),
            display_name: self.display_name.clone(),
            fetched_at: self.fetched_at,
        }
    }
}

impl Clone for GrantRow {
    fn clone(&self) -> (r: Self)
        ensures
            r@ == self@,
    {
        GrantRow {
            name: self.name.as_str().to_owned(),
            entitlement_name: self.entitlement_name.as_str().to_owned(),
            entitlement_short_name: self.entitlement_short_name.as_str().to_owned(),
            scope_type: self.scope_type,
            scope_id: self.scope_id.as_str().to_owned(),
            scope_display_name: self.scope_display_name.clone(),
            short_id: self.short_id.as_str().to_owned(),
            state: self.state.as_str().to_owned(),
            requested_duration_secs: self.requested_duration_secs,
            justification: self.justification.clone(),
            created_at: self.created_at,
            activated_at: self.activated_at,
            expires_at: self.expires_at,
            last_polled_at: self.last_polled_at,
            raw_json: self.raw_json.clone(),
        }
    }
}

impl Clone for StoredGrant {
    fn clone(&self) -> (r: Self)
        ensures
            r@ == self@,
    {
        StoredGrant {
            name: self.name.as_str().to_owned(),
            entitlement_name: self.entitlement_name.as_str().to_owned(),
            entitlement_short_name: self.entitlement_short_name.as_str().to_owned(),
            scope_type: self.scope_type.as_str().to_owned(),
            scope_id: self.scope_id.as_str().to_owned(),
            short_id: self.short_id.as_str().to_owned(),
            state: self.state.as_str().to_owned(),
            requested_duration_secs: self.requested_duration_secs,
            justification: self.justification.clone(),
            created_at: self.created_at,
            activated_at: self.activated_at,
            expires_at: self.expires_at,
            last_polled_at: self.last_polled_at,
            raw_json: self.raw_json.clone(),
        }
    }
}

impl Clone for StoredEntitlement {
    fn clone(&self) -> (r: Self)
        ensures
            r@ == self@,
    {
        StoredEntitlement {
            name: self.name.as_str().to_owned(),
            scope_type: self.scope_type.as_str().to_owned(),
            scope_id: self.scope_id.as_str().to_owned(),
            short_name: self.short_name.as_str().to_owned(),
            max_request_duration_secs: self.max_request_duration_secs,
            justification_required: self.justification_required,
            approvers_json: self.approvers_json.as_str().to_owned(),
            roles_json: self.roles_json.as_str().to_owned(),
            raw_json: self.raw_json.as_str().to_owned(),
            fetched_at: self.fetched_at,
            last_used_at: self.last_used_at,
        }
    }
}

/// The models of a list of entitlements.
pub open spec fn entitlement_models(v: Seq<EntitlementRow>) -> Seq<EntitlementModel> {
    Seq::new(v.len(), |i: int| v[i]@)
}

/// The models of a list of grants.
pub open spec fn grant_models(v: Seq<GrantRow>) -> Seq<GrantModel> {
    Seq::new(v.len(), |i: int| v[i]@)
}

/// What a row says is what its fields hold, each under its own name.
pub proof fn law_entitlement_row_says_what_it_holds(row: EntitlementRow)
    ensures
        row@.name == row.name@,
        row@.scope_type == row.scope_type,
        row@.scope_id == row.scope_id@,
        row.scope_display_name is None ==> row@.scope_display_name is None,
        row.scope_display_name matches Some(t) ==> row@.scope_display_name == Some(t@),
        row@.short_name == row.short_name@,
        row@.max_request_duration_secs == row.max_request_duration_secs,
        row@.justification_required == row.justification_required,
        row@.approvers.len() == row.approvers@.len(),
        forall|i: int|
            0 <= i < row.approvers@.len() ==> #[trigger] row@.approvers[i] == row.approvers@[i]@,
        row@.roles.len() == row.roles@.len(),
        forall|i: int|
            0 <= i < row.roles@.len() ==> #[trigger] row@.roles[i] == row.roles@[i]@,
        row@.raw_json == row.raw_json@,
        row@.fetched_at == row.fetched_at,
        row@.last_used_at == row.last_used_at,
{
}

/// What a row says is what its fields hold, each under its own name.
pub proof fn law_project_row_says_what_it_holds(row: ProjectRow)
    ensures
        row@.project_id == row.project_id@,
        row.display_name is None ==> row@.display_name is None,
        row.display_name matches Some(t) ==> row@.display_name == Some(t@),
        row.state is None ==> row@.state is None,
        row.state matches Some(t) ==> row@.state == Some(t@),
        row@.fetched_at == row.fetched_at,
{
}

/// What a row says is what its fields hold, each under its own name.
pub proof fn law_folder_row_says_what_it_holds(row: FolderRow)
    ensures
        row@.folder_id == row.folder_id@,
        row.display_name is None ==> row@.display_name is None,
        row.display_name matches Some(t) ==> row@.display_name == Some(t@),
        row.parent is None ==> row@.parent is None,
        row.parent matches Some(t) ==> row@.parent == Some(t@),
        row@.fetched_at == row.fetched_at,
{
}

/// What a row says is what its fields hold, each under its own name.
pub proof fn law_organization_row_says_what_it_holds(row: OrganizationRow)
    ensures
        row@.org_id == row.org_id@,
        row.display_name is None ==> row@.display_name is None,
        row.display_name matches Some(t) ==> row@.display_name == Some(t@),
        row@.fetched_at == row.fetched_at,
{
}

/// What a row says is what its fields hold, each under its own name.
pub proof fn law_grant_row_says_what_it_holds(row: GrantRow)
    ensures
        row@.name == row.name@,
        row@.entitlement_name == row.entitlement_name@,
        row@.entitlement_short_name == row.entitlement_short_name@,
        row@.scope_type == row.scope_type,
        row@.scope_id == row.scope_id@,
        row.scope_display_name is None ==> row@.scope_display_name is None,
        row.scope_display_name matches Some(t) ==> row@.scope_display_name == Some(t@),
        row@.short_id == row.short_id@,
        row@.state == row.state@,
        row@.requested_duration_secs == row.requested_duration_secs,
        row.justification is None ==> row@.justification is None,
        row.justification matches Some(t) ==> row@.justification == Some(t@),
        row@.created_at == row.created_at,
        row@.activated_at == row.activated_at,
        row@.expires_at == row.expires_at,
        row@.last_polled_at == row.last_polled_at,
        row.raw_json is None ==> row@.raw_json is None,
        row.raw_json matches Some(t) ==> row@.raw_json == Some(t@),
{
}

/// What a row says is what its fields hold, each under its own name.
pub proof fn law_meta_row_says_what_it_holds(row: MetaRow)
    ensures
        row@.key == row.key@,
        row@.value == row.value@,
{
}

/// What a row says is what its fields hold, each under its own name.
pub proof fn law_stored_entitlement_says_what_it_holds(row: StoredEntitlement)
    ensures
        row@.name == row.name@,
        row@.scope_type == row.scope_type@,
        row@.scope_id == row.scope_id@,
        row@.short_name == row.short_name@,
        row@.max_request_duration_secs == row.max_request_duration_secs,
        row@.justification_required == row.justification_required,
        row@.approvers_json == row.approvers_json@,
        row@.roles_json == row.roles_json@,
        row@.raw_json == row.raw_json@,
        row@.fetched_at == row.fetched_at,
        row@.last_used_at == row.last_used_at,
{
}

/// What a row says is what its fields hold, each under its own name.
pub proof fn law_stored_grant_says_what_it_holds(row: StoredGrant)
    ensures
        row@.name == row.name@,
        row@.entitlement_name == row.entitlement_name@,
        row@.entitlement_short_name == row.entitlement_short_name@,
        row@.scope_type == row.scope_type@,
        row@.scope_id == row.scope_id@,
        row@.short_id == row.short_id@,
        row@.state == row.state@,
        row@.requested_duration_secs == row.requested_duration_secs,
        row.justification is None ==> row@.justification is None,
        row.justification matches Some(t) ==> row@.justification == Some(t@),
        row@.created_at == row.created_at,
        row@.activated_at == row.activated_at,
        row@.expires_at == row.expires_at,
        row@.last_polled_at == row.last_polled_at,
        row.raw_json is None ==> row@.raw_json is None,
        row.raw_json matches Some(t) ==> row@.raw_json == Some(t@),
{
}

} // verus!
