//! Entitlements: where they are searched, and what is kept of each.
use vstd::prelude::*;
use vstd::seq_lib::*;
use vstd::string::*;
use crate::backend::{ScopeTarget, TargetModel};
use crate::cache::EntitlementRow;
use crate::cache::rows;
use crate::cache::rows::EntitlementModel;
use crate::gcp::Scope;
use crate::text;
use crate::text::last_piece;

verus! {

/// The parent that entitlements of a scope are searched under.
pub open spec fn parent_name(scope: Scope, id: Seq<char>) -> Seq<char> {
    scope.plural_text() + "/"@ + id + "/locations/global"@
}

proof fn lemma_roots()
    ensures
        "projects/"@ == "projects"@ + "/"@,
        "folders/"@ == "folders"@ + "/"@,
        "organizations/"@ == "organizations"@ + "/"@,
{
    reveal_strlit("projects/");
    reveal_strlit("folders/");
    reveal_strlit("organizations/");
    reveal_strlit("projects");
    reveal_strlit("folders");
    reveal_strlit("organizations");
    reveal_strlit("/");
    assert("projects/"@ =~= "projects"@ + "/"@);
    assert("folders/"@ =~= "folders"@ + "/"@);
    assert("organizations/"@ =~= "organizations"@ + "/"@);
}

/// The parent that entitlements of a scope are searched under:
/// `{projects|folders|organizations}/{id}/locations/global`.
pub fn parent(scope: Scope, id: &str) -> (r: String)
    ensures
        r@ == parent_name(scope, id@),
        scope is Project ==> r@ == "projects/"@ + id@ + "/locations/global"@,
        scope is Folder ==> r@ == "folders/"@ + id@ + "/locations/global"@,
        scope is Organization ==> r@ == "organizations/"@ + id@ + "/locations/global"@,
{
    proof {
        lemma_roots();
    }
    let mut r: String = scope.plural().to_owned();
    r.append("/");
    r.append(id);
    r.append("/locations/global");
    r
}

/// An entitlement as the service reports it.
#[derive(Debug)]
pub struct EntitlementRecord {
    pub name: String,
    /// The configuration says that no justification is needed.
    pub justification_not_mandatory: bool,
    pub max_request_duration_secs: Option<i64>,
    /// The principals of each approver of each step, where approval is manual.
    pub approval_steps: Option<Vec<Vec<Vec<String>>>>,
    /// The roles that are given, where access is given through roles.
    pub roles: Option<Vec<String>>,
    /// The whole entitlement as JSON, where it could be written.
    pub json: Option<String>,
}

/// All principals of all steps, in order.
pub open spec fn all_approvers(steps: Option<Vec<Vec<Vec<String>>>>) -> Seq<Seq<char>> {
    match steps {
        Some(v) => v.deep_view().flatten().flatten(),
        None => Seq::empty(),
    }
}

/// What is kept of a reported entitlement.
pub open spec fn row_model(
    ent: EntitlementRecord,
    target: TargetModel,
    fetched_at: i64,
) -> EntitlementModel {
    EntitlementModel {
        name: ent.name@,
        scope_type: target.scope,
        scope_id: target.id,
        scope_display_name: target.display_name,
        short_name: text::pieces(ent.name@, '/').last(),
        max_request_duration_secs: ent.max_request_duration_secs,
        justification_required: !ent.justification_not_mandatory,
        approvers: all_approvers(ent.approval_steps),
        roles: match ent.roles {
            Some(v) => v.deep_view(),
            None => Seq::empty(),
        },
        raw_json: match ent.json {
            Some(s) => s@,
            None => "{}"@,
        },
        fetched_at,
        last_used_at: None,
    }
}

/// Adds one approver's principals to a list.
fn add_principals(out: &mut Vec<String>, principals: &Vec<String>)
    ensures
        final(out).deep_view() == old(out).deep_view() + principals.deep_view(),
{
    let ghost prior = out.deep_view();
    let ghost all = principals.deep_view();
    let mut i: usize = 0;
    assert(out.deep_view() =~= prior + all.take(0));
    while i < principals.len()
        invariant
            i <= principals.len(),
            all == principals.deep_view(),
            out.deep_view() == prior + all.take(i as int),
        decreases principals.len() - i,
    {
        let ghost before = out.deep_view();
        out.push(principals[i].as_str().to_owned());
        assert(out.deep_view() =~= before.push(all[i as int]));
        assert(all.take(i + 1) =~= all.take(i as int).push(all[i as int]));
        i += 1;
    }
    assert(all.take(i as int) =~= all);
}

/// The principals of all steps.
fn flatten_steps(steps: &Vec<Vec<Vec<String>>>) -> (r: Vec<String>)
    ensures
        r.deep_view() == steps.deep_view().flatten().flatten(),
{
    let ghost all = steps.deep_view();
    let mut out: Vec<String> = Vec::new();
    let mut i: usize = 0;
    assert(all.take(0) =~= Seq::empty());
    assert(out.deep_view() =~= Seq::<Seq<char>>::empty());
    while i < steps.len()
        invariant
            i <= steps.len(),
            all == steps.deep_view(),
            out.deep_view() == all.take(i as int).flatten().flatten(),
        decreases steps.len() - i,
    {
        let approvers: &Vec<Vec<String>> = &steps[i];
        let ghost done = all.take(i as int).flatten();
        let ghost step = approvers.deep_view();
        let mut j: usize = 0;
        assert(step.take(0) =~= Seq::empty());
        assert(done + step.take(0) =~= done);
        while j < approvers.len()
            invariant
                j <= approvers.len(),
                step == approvers.deep_view(),
                out.deep_view() == (done + step.take(j as int)).flatten(),
            decreases approvers.len() - j,
        {
            proof {
                assert(done + step.take(j + 1) =~= (done + step.take(j as int)).push(
                    step[j as int],
                ));
                (done + step.take(j as int)).lemma_flatten_push(step[j as int]);
            }
            add_principals(&mut out, &approvers[j]);
            j += 1;
        }
        proof {
            assert(step.take(j as int) =~= step);
            assert(step == all[i as int]);
            assert(all.take(i + 1) =~= all.take(i as int).push(all[i as int]));
            all.take(i as int).lemma_flatten_push(all[i as int]);
        }
        i += 1;
    }
    assert(all.take(i as int) =~= all);
    out
}

/// The row that is kept of a reported entitlement.
pub fn to_row(ent: &EntitlementRecord, target: &ScopeTarget, fetched_at: i64) -> (r:
    EntitlementRow)
    ensures
        r@ == row_model(*ent, target@, fetched_at),
        r.name@ == ent.name@,
        r.scope_type == target.scope,
        r.scope_id@ == target.id@,
        r.scope_display_name is Some <==> target.display_name is Some,
        r.scope_display_name matches Some(t) ==> t@ == target.display_name->0@,
        r.max_request_duration_secs == ent.max_request_duration_secs,
        r.justification_required == !ent.justification_not_mandatory,
        ent.roles matches Some(v) ==> r.roles.deep_view() == v.deep_view(),
        ent.roles is None ==> r.roles@.len() == 0,
        ent.approval_steps is None ==> r.approvers@.len() == 0,
        ent.approval_steps matches Some(v) ==> r.approvers.deep_view()
            == v.deep_view().flatten().flatten(),
        ent.json matches Some(t) ==> r.raw_json@ == t@,
        ent.json is None ==> r.raw_json@ == "{}"@,
        r.fetched_at == fetched_at,
        r.last_used_at is None,
        !r.short_name@.contains('/'),
        r.short_name@ == ent.name@ || text::ends_with(ent.name@, seq!['/'] + r.short_name@),
{
    proof {
        text::law_last_piece(ent.name@, '/');
    }
    let approvers: Vec<String> = match &ent.approval_steps {
        Some(steps) => flatten_steps(steps),
        None => {
            let v: Vec<String> = Vec::new();
            assert(v.deep_view() =~= Seq::<Seq<char>>::empty());
            v
        },
    };
    let roles: Vec<String> = match &ent.roles {
        Some(v) => v.clone(),
        None => {
            let v: Vec<String> = Vec::new();
            assert(v.deep_view() =~= Seq::<Seq<char>>::empty());
            v
        },
    };
    let raw_json: String = match &ent.json {
        Some(s) => s.as_str().to_owned(),
        None => "{}".to_owned(),
    };
    EntitlementRow {
        name: ent.name.as_str().to_owned(),
        scope_type: target.scope,
        scope_id: target.id.as_str().to_owned(),
        scope_display_name: target.display_name.clone(),
        short_name: last_piece(ent.name.as_str(), '/').to_owned(),
        max_request_duration_secs: ent.max_request_duration_secs,
        justification_required: !ent.justification_not_mandatory,
        approvers,
        roles,
        raw_json,
        fetched_at,
        last_used_at: None,
    }
}

/// The rows that are kept of the entitlements that a search found, in order.
pub fn rows_found(
    found: &Vec<EntitlementRecord>,
    target: &ScopeTarget,
    fetched_at: i64,
) -> (r: Vec<EntitlementRow>)
    ensures
        rows::entitlement_models(r@) == Seq::new(
            found@.len(),
            |i: int| row_model(found@[i], target@, fetched_at),
        ),
{
    let mut out: Vec<EntitlementRow> = Vec::new();
    let mut i: usize = 0;
    while i < found.len()
        invariant
            i <= found.len(),
            out.len() == i,
            forall|k: int|
                0 <= k < i ==> (#[trigger] out@[k])@ == row_model(found@[k], target@, fetched_at),
        decreases found.len() - i,
    {
        out.push(to_row(&found[i], target, fetched_at));
        i += 1;
    }
    assert(rows::entitlement_models(out@) =~= Seq::new(
        found@.len(),
        |i: int| row_model(found@[i], target@, fetched_at),
    ));
    out
}

} // verus!
