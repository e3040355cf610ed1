//! The data source behind the screens.
pub mod demo;

use vstd::prelude::*;
use crate::gcp::Scope;

verus! {

/// A scope to search, with the human-readable name that was discovered with
/// it. The name flows through to the entitlements that are found, so that it
/// can be shown before the cache knows it.
#[derive(Debug)]
pub struct ScopeTarget {
    pub scope: Scope,
    pub id: String,
    pub display_name: Option<String>,
}

/// A scope to search, as characters.
pub ghost struct TargetModel {
    pub scope: Scope,
    pub id: Seq<char>,
    pub display_name: Option<Seq<char>>,
}

impl View for ScopeTarget {
    type V = TargetModel;

    open spec fn view(&self) -> TargetModel {
        TargetModel {
            scope: self.scope,
            id: self.id@,
            display_name: self.display_name.deep_view(),
        }
    }
}

impl Clone for ScopeTarget {
    fn clone(&self) -> (r: Self)
        ensures
            r@ == self@,
            r.scope == self.scope,
            r.id@ == self.id@,
            r.display_name.deep_view() == self.display_name.deep_view(),
    {
        ScopeTarget {
            scope: self.scope,
            id: self.id.as_str().to_owned(),
            display_name: self.display_name.clone(),
        }
    }
}

/// A target says what it holds.
pub proof fn law_target_says_what_it_holds(t: ScopeTarget)
    ensures
        t@.scope == t.scope,
        t@.id == t.id@,
        t.display_name is None ==> t@.display_name is None,
        t.display_name matches Some(n) ==> t@.display_name == Some(n@),
{
}

} // verus!
