//! Projects that the account can see.
use vstd::prelude::*;
use vstd::string::*;
use crate::cache;
use crate::cache::ProjectRow;
use crate::cache::rows::ProjectModel;
use crate::text;
use crate::text::unless_empty;

verus! {

/// A project as the service reports it: no value is an empty one.
#[derive(Debug)]
pub struct ProjectRecord {
    pub project_id: String,
    pub display_name: String,
    pub active: bool,
}

/// What is kept of a reported project: nothing, unless it is active and has an
/// id.
pub open spec fn kept(item: ProjectRecord, fetched_at: i64) -> Option<ProjectModel> {
    if item.active && item.project_id@.len() > 0 {
        Some(
            ProjectModel {
                project_id: item.project_id@,
                display_name: text::some_unless_empty(item.display_name@),
                state: Some("ACTIVE"@),
                fetched_at,
            },
        )
    } else {
        None
    }
}

/// What is kept of a list, in order.
pub open spec fn visible(items: Seq<ProjectRecord>, fetched_at: i64) -> Seq<ProjectModel>
    decreases items.len(),
{
    if items.len() == 0 {
        Seq::empty()
    } else {
        let init = visible(items.drop_last(), fetched_at);
        match kept(items.last(), fetched_at) {
            Some(m) => init.push(m),
            None => init,
        }
    }
}

/// The rows that are kept of the projects that were listed.
pub fn list_visible(items: Vec<ProjectRecord>, fetched_at: i64) -> (r: Vec<ProjectRow>)
    ensures
        cache::models(r@) == visible(items@, fetched_at),
{
    let mut out: Vec<ProjectRow> = Vec::new();
    let mut i: usize = 0;
    assert(cache::models(out@) =~= visible(items@.take(0), fetched_at));
    while i < items.len()
        invariant
            i <= items.len(),
            cache::models(out@) == visible(items@.take(i as int), fetched_at),
        decreases items.len() - i,
    {
        let item: &ProjectRecord = &items[i];
        let ghost before = cache::models(out@);
        assert(items@.take(i + 1).drop_last() =~= items@.take(i as int));
        if !item.project_id.as_str().is_empty() && item.active {
            out.push(
                ProjectRow {
                    project_id: item.project_id.as_str().to_owned(),
                    display_name: unless_empty(item.display_name.as_str().to_owned()),
                    state: Some("ACTIVE".to_owned()),
                    fetched_at,
                },
            );
            assert(cache::models(out@) =~= before.push(kept(*item, fetched_at)->0));
        }
        i += 1;
    }
    assert(items@.take(i as int) =~= items@);
    out
}

/// A project is kept exactly where it is active and has an id, with the id, the
/// name and the time as they were reported.
pub proof fn law_kept_as_reported(item: ProjectRecord, fetched_at: i64)
    ensures
        kept(item, fetched_at) is Some <==> item.active && item.project_id@.len() > 0,
        kept(item, fetched_at) matches Some(m) ==> {
            &&& m.project_id == item.project_id@
            &&& item.display_name@.len() > 0 ==> m.display_name == Some(item.display_name@)
            &&& item.display_name@.len() == 0 ==> m.display_name is None
            &&& m.state == Some("ACTIVE"@)
            &&& m.fetched_at == fetched_at
        },
{
}

/// Exactly what is kept of each item of a list is listed, in order: one more
/// item adds what is kept of it at the end.
pub proof fn law_list_in_order(items: Seq<ProjectRecord>, item: ProjectRecord, fetched_at: i64)
    ensures
        visible(Seq::empty(), fetched_at).len() == 0,
        kept(item, fetched_at) matches Some(m) ==> visible(items.push(item), fetched_at) == visible(
            items,
            fetched_at,
        ).push(m),
        kept(item, fetched_at) is None ==> visible(items.push(item), fetched_at) == visible(
            items,
            fetched_at,
        ),
{
    assert(items.push(item).drop_last() =~= items);
}

} // verus!
