//! Folders that the account can see.
use vstd::prelude::*;
use vstd::string::*;
use crate::cache;
use crate::cache::FolderRow;
use crate::cache::rows::FolderModel;
use crate::text;
use crate::text::{strip_prefix, unless_empty};

verus! {

/// A folder as the service reports it: no value is an empty one.
#[derive(Debug)]
pub struct FolderRecord {
    pub name: String,
    pub display_name: String,
    pub parent: String,
    pub active: bool,
}

/// What is kept of a reported folder: nothing, unless it is active and named
/// `folders/{id}`.
pub open spec fn kept(item: FolderRecord, fetched_at: i64) -> Option<FolderModel> {
    match text::after_prefix(item.name@, "folders/"@) {
        Some(id) => if item.active && id.len() > 0 {
            Some(
                FolderModel {
                    folder_id: id,
                    display_name: text::some_unless_empty(item.display_name@),
                    parent: text::some_unless_empty(item.parent@),
                    fetched_at,
                },
            )
        } else {
            None
        },
        None => None,
    }
}

/// What is kept of a list, in order.
pub open spec fn visible(items: Seq<FolderRecord>, fetched_at: i64) -> Seq<FolderModel>
    decreases items.len(),
{
    if items.len() == 0 {
        Seq::empty()
    } else {
        let init = visible(items.drop_last(), fetched_at);
        match kept(items.last(), fetched_at) {
            Some(m) => init.push(m),
            None => init,
        }
    }
}

/// The rows that are kept of the folders that were listed.
pub fn list_visible(items: Vec<FolderRecord>, fetched_at: i64) -> (r: Vec<FolderRow>)
    ensures
        cache::models(r@) == visible(items@, fetched_at),
{
    let mut out: Vec<FolderRow> = Vec::new();
    let mut i: usize = 0;
    assert(cache::models(out@) =~= visible(items@.take(0), fetched_at));
    while i < items.len()
        invariant
            i <= items.len(),
            cache::models(out@) == visible(items@.take(i as int), fetched_at),
        decreases items.len() - i,
    {
        let item: &FolderRecord = &items[i];
        let ghost before = cache::models(out@);
        assert(items@.take(i + 1).drop_last() =~= items@.take(i as int));
        if item.active {
            if let Some(id) = strip_prefix(item.name.as_str(), "folders/") {
                if !id.is_empty() {
                    out.push(
                        FolderRow {
                            folder_id: id.to_owned(),
                            display_name: unless_empty(item.display_name.as_str().to_owned()),
                            parent: unless_empty(item.parent.as_str().to_owned()),
                            fetched_at,
                        },
                    );
                    assert(cache::models(out@) =~= before.push(kept(*item, fetched_at)->0));
                }
            }
        }
        i += 1;
    }
    assert(items@.take(i as int) =~= items@);
    out
}

/// A folder is kept exactly where it is active and its name holds an id, with
/// the id, the names and the time as they were reported.
pub proof fn law_kept_as_reported(item: FolderRecord, fetched_at: i64, id: Seq<char>)
    requires
        id.len() > 0,
    ensures
        kept(item, fetched_at) is Some ==> item.active,
        item.name@ == "folders/"@ + id ==> (kept(item, fetched_at) is Some <==> item.active),
        kept(item, fetched_at) matches Some(m) ==> {
            &&& item.name@ == "folders/"@ + m.folder_id
            &&& m.folder_id.len() > 0
            &&& item.display_name@.len() > 0 ==> m.display_name == Some(item.display_name@)
            &&& item.display_name@.len() == 0 ==> m.display_name is None
            &&& item.parent@.len() > 0 ==> m.parent == Some(item.parent@)
            &&& item.parent@.len() == 0 ==> m.parent is None
            &&& m.fetched_at == fetched_at
        },
{
    let name = item.name@;
    let root = "folders/"@;
    if name == root + id {
        assert(name.subrange(0, root.len() as int) =~= root);
        assert(name.skip(root.len() as int) =~= id);
    }
    if kept(item, fetched_at) is Some {
        assert(name =~= root + name.skip(root.len() as int));
    }
}

/// Exactly what is kept of each item of a list is listed, in order: one more
/// item adds what is kept of it at the end.
pub proof fn law_list_in_order(items: Seq<FolderRecord>, item: FolderRecord, fetched_at: i64)
    ensures
        visible(Seq::empty(), fetched_at).len() == 0,
        kept(item, fetched_at) matches Some(m) ==> visible(items.push(item), fetched_at) == visible(
            items,
            fetched_at,
        ).push(m),
        kept(item, fetched_at) is None ==> visible(items.push(item), fetched_at) == visible(
            items,
            fetched_at,
        ),
{
    assert(items.push(item).drop_last() =~= items);
}

} // verus!
