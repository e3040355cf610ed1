//! Organizations that the account can see.
use vstd::prelude::*;
use vstd::string::*;
use crate::cache;
use crate::cache::OrganizationRow;
use crate::cache::rows::OrganizationModel;
use crate::text;
use crate::text::{strip_prefix, unless_empty};

verus! {

/// An organization as the service reports it: no value is an empty one.
#[derive(Debug)]
pub struct OrganizationRecord {
    pub name: String,
    pub display_name: String,
    pub active: bool,
}

/// What is kept of a reported organization: nothing, unless it is active and named
/// `organizations/{id}`.
pub open spec fn kept(item: OrganizationRecord, fetched_at: i64) -> Option<OrganizationModel> {
    match text::after_prefix(item.name@, "organizations/"@) {
        Some(id) => if item.active && id.len() > 0 {
            Some(
                OrganizationModel {
                    org_id: id,
                    display_name: text::some_unless_empty(item.display_name@),
                    fetched_at,
                },
            )
        } else {
            None
        },
        None => None,
    }
}

/// What is kept of a list, in order.
pub open spec fn visible(items: Seq<OrganizationRecord>, fetched_at: i64) -> Seq<OrganizationModel>
    decreases items.len(),
{
    if items.len() == 0 {
        Seq::empty()
    } else {
        let init = visible(items.drop_last(), fetched_at);
        match kept(items.last(), fetched_at) {
            Some(m) => init.push(m),
            None => init,
        }
    }
}

/// The rows that are kept of the organizations that were listed.
pub fn list_visible(items: Vec<OrganizationRecord>, fetched_at: i64) -> (r: Vec<OrganizationRow>)
    ensures
        cache::models(r@) == visible(items@, fetched_at),
{
    let mut out: Vec<OrganizationRow> = Vec::new();
    let mut i: usize = 0;
    assert(cache::models(out@) =~= visible(items@.take(0), fetched_at));
    while i < items.len()
        invariant
            i <= items.len(),
            cache::models(out@) == visible(items@.take(i as int), fetched_at),
        decreases items.len() - i,
    {
        let item: &OrganizationRecord = &items[i];
        let ghost before = cache::models(out@);
        assert(items@.take(i + 1).drop_last() =~= items@.take(i as int));
        if item.active {
            if let Some(id) = strip_prefix(item.name.as_str(), "organizations/") {
                if !id.is_empty() {
                    out.push(
                        OrganizationRow {
                            org_id: id.to_owned(),
                            display_name: unless_empty(item.display_name.as_str().to_owned()),
                            fetched_at,
                        },
                    );
                    assert(cache::models(out@) =~= before.push(kept(*item, fetched_at)->0));
                }
            }
        }
        i += 1;
    }
    assert(items@.take(i as int) =~= items@);
    out
}

/// A organization is kept exactly where it is active and its name holds an id, with
/// the id, the names and the time as they were reported.
pub proof fn law_kept_as_reported(item: OrganizationRecord, fetched_at: i64, id: Seq<char>)
    requires
        id.len() > 0,
    ensures
        kept(item, fetched_at) is Some ==> item.active,
        item.name@ == "organizations/"@ + id ==> (kept(item, fetched_at) is Some <==> item.active),
        kept(item, fetched_at) matches Some(m) ==> {
            &&& item.name@ == "organizations/"@ + m.org_id
            &&& m.org_id.len() > 0
            &&& item.display_name@.len() > 0 ==> m.display_name == Some(item.display_name@)
            &&& item.display_name@.len() == 0 ==> m.display_name is None
            &&& m.fetched_at == fetched_at
        },
{
    let name = item.name@;
    let root = "organizations/"@;
    if name == root + id {
        assert(name.subrange(0, root.len() as int) =~= root);
        assert(name.skip(root.len() as int) =~= id);
    }
    if kept(item, fetched_at) is Some {
        assert(name =~= root + name.skip(root.len() as int));
    }
}

/// Exactly what is kept of each item of a list is listed, in order: one more
/// item adds what is kept of it at the end.
pub proof fn law_list_in_order(items: Seq<OrganizationRecord>, item: OrganizationRecord, fetched_at: i64)
    ensures
        visible(Seq::empty(), fetched_at).len() == 0,
        kept(item, fetched_at) matches Some(m) ==> visible(items.push(item), fetched_at) == visible(
            items,
            fetched_at,
        ).push(m),
        kept(item, fetched_at) is None ==> visible(items.push(item), fetched_at) == visible(
            items,
            fetched_at,
        ),
{
    assert(items.push(item).drop_last() =~= items);
}

} // verus!
