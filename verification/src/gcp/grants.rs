//! Grants: their states, their resource names, and what is sent to and read
//! from the service about them.
use std::str::FromStr;
use vstd::prelude::*;
use vstd::string::*;
use crate::gcp::Scope;
use crate::numbers;
use crate::numbers::parse_i64;
use crate::text;
use crate::text::{non_empty, split, strip_prefix, trim, unless_empty};

verus! {

/// The state of a grant.
///
/// The states of the service, a local `Requested` for grants that were
/// submitted and not yet polled, and `Unknown` for any state name that is not
/// modelled.
#[derive(Debug, PartialEq, Eq)]
pub enum GrantState {
    /// Never returned by the service: a grant was just created, and its state
    /// has not been polled yet.
    Requested,
    ApprovalAwaited,
    Scheduled,
    Activating,
    Active,
    Revoking,
    Withdrawing,
    Denied,
    ActivationFailed,
    Expired,
    Revoked,
    Ended,
    Withdrawn,
    /// A state that is not modelled, with its raw name.
    Unknown(String),
}

/// The state of a grant, with the characters of an unknown state's name.
pub ghost enum StateModel {
    Requested,
    ApprovalAwaited,
    Scheduled,
    Activating,
    Active,
    Revoking,
    Withdrawing,
    Denied,
    ActivationFailed,
    Expired,
    Revoked,
    Ended,
    Withdrawn,
    Unknown(Seq<char>),
}

impl View for GrantState {
    type V = StateModel;

    open spec fn view(&self) -> StateModel {
        match self {
            GrantState::Requested => StateModel::Requested,
            GrantState::ApprovalAwaited => StateModel::ApprovalAwaited,
            GrantState::Scheduled => StateModel::Scheduled,
            GrantState::Activating => StateModel::Activating,
            GrantState::Active => StateModel::Active,
            GrantState::Revoking => StateModel::Revoking,
            GrantState::Withdrawing => StateModel::Withdrawing,
            GrantState::Denied => StateModel::Denied,
            GrantState::ActivationFailed => StateModel::ActivationFailed,
            GrantState::Expired => StateModel::Expired,
            GrantState::Revoked => StateModel::Revoked,
            GrantState::Ended => StateModel::Ended,
            GrantState::Withdrawn => StateModel::Withdrawn,
            GrantState::Unknown(name) => StateModel::Unknown(name@),
        }
    }
}

impl Clone for GrantState {
    fn clone(&self) -> (r: Self)
        ensures
            r@ == self@,
    {
        match self {
            GrantState::Requested => GrantState::Requested,
            GrantState::ApprovalAwaited => GrantState::ApprovalAwaited,
            GrantState::Scheduled => GrantState::Scheduled,
            GrantState::Activating => GrantState::Activating,
            GrantState::Active => GrantState::Active,
            GrantState::Revoking => GrantState::Revoking,
            GrantState::Withdrawing => GrantState::Withdrawing,
            GrantState::Denied => GrantState::Denied,
            GrantState::ActivationFailed => GrantState::ActivationFailed,
            GrantState::Expired => GrantState::Expired,
            GrantState::Revoked => GrantState::Revoked,
            GrantState::Ended => GrantState::Ended,
            GrantState::Withdrawn => GrantState::Withdrawn,
            GrantState::Unknown(name) => GrantState::Unknown(name.as_str().to_owned()),
        }
    }
}

impl StateModel {
    pub open spec fn active(self) -> bool {
        self is Active
    }

    /// A state that no grant leaves.
    pub open spec fn terminal(self) -> bool {
        ||| self is Denied
        ||| self is ActivationFailed
        ||| self is Expired
        ||| self is Revoked
        ||| self is Ended
        ||| self is Withdrawn
    }

    /// The text a state is shown and stored as.
    pub open spec fn shown(self) -> Seq<char> {
        match self {
            StateModel::Requested => "Requested"@,
            StateModel::ApprovalAwaited => "ApprovalAwaited"@,
            StateModel::Scheduled => "Scheduled"@,
            StateModel::Activating => "Activating"@,
            StateModel::Active => "Active"@,
            StateModel::Revoking => "Revoking"@,
            StateModel::Withdrawing => "Withdrawing"@,
            StateModel::Denied => "Denied"@,
            StateModel::ActivationFailed => "ActivationFailed"@,
            StateModel::Expired => "Expired"@,
            StateModel::Revoked => "Revoked"@,
            StateModel::Ended => "Ended"@,
            StateModel::Withdrawn => "Withdrawn"@,
            StateModel::Unknown(name) => "Unknown:"@ + name,
        }
    }

    /// The state a text stands for. A text that names none is an unknown
    /// state; the mark `Unknown:` before its name is dropped.
    pub open spec fn read(s: Seq<char>) -> StateModel {
        if s == "Requested"@ {
            StateModel::Requested
        } else if s == "ApprovalAwaited"@ {
            StateModel::ApprovalAwaited
        } else if s == "Scheduled"@ {
            StateModel::Scheduled
        } else if s == "Activating"@ {
            StateModel::Activating
        } else if s == "Active"@ {
            StateModel::Active
        } else if s == "Revoking"@ {
            StateModel::Revoking
        } else if s == "Withdrawing"@ {
            StateModel::Withdrawing
        } else if s == "Denied"@ {
            StateModel::Denied
        } else if s == "ActivationFailed"@ {
            StateModel::ActivationFailed
        } else if s == "Expired"@ {
            StateModel::Expired
        } else if s == "Revoked"@ {
            StateModel::Revoked
        } else if s == "Ended"@ {
            StateModel::Ended
        } else if s == "Withdrawn"@ {
            StateModel::Withdrawn
        } else {
            match text::after_prefix(s, "Unknown:"@) {
                Some(name) => StateModel::Unknown(name),
                None => StateModel::Unknown(s),
            }
        }
    }

    /// Every state is read back from its text.
    pub proof fn law_read_back(self)
        ensures
            StateModel::read(self.shown()) == self,
    {
        lemma_state_names();
        if let StateModel::Unknown(name) = self {
            let s = self.shown();
            reveal_strlit("Unknown:");
            assert(s[0] == 'U');
            assert(s.subrange(8, s.len() as int) =~= name);
            assert(s.subrange(0, 8) =~= "Unknown:"@);
            assert(text::after_prefix(s, "Unknown:"@) == Some(name));
        }
    }

    /// An active grant is not over.
    pub proof fn law_active_is_not_terminal(self)
        ensures
            !(self.active() && self.terminal()),
    {
    }

    /// A text that stands for an unknown state is neither active nor over.
    pub proof fn law_unknown_is_open(s: Seq<char>)
        requires
            StateModel::read(s) is Unknown,
        ensures
            !StateModel::read(s).active(),
            !StateModel::read(s).terminal(),
    {
    }
}

/// Two state names are told apart by a length or a character.
proof fn lemma_state_names()
    ensures
        "Requested"@.len() == 9 && "Requested"@[0] == 'R',
        "ApprovalAwaited"@.len() == 15 && "ApprovalAwaited"@[0] == 'A',
        "Scheduled"@.len() == 9 && "Scheduled"@[0] == 'S',
        "Activating"@.len() == 10 && "Activating"@[0] == 'A',
        "Active"@.len() == 6 && "Active"@[0] == 'A',
        "Revoking"@.len() == 8 && "Revoking"@[0] == 'R',
        "Withdrawing"@.len() == 11 && "Withdrawing"@[0] == 'W',
        "Denied"@.len() == 6 && "Denied"@[0] == 'D',
        "ActivationFailed"@.len() == 16 && "ActivationFailed"@[0] == 'A',
        "Expired"@.len() == 7 && "Expired"@[0] == 'E',
        "Revoked"@.len() == 7 && "Revoked"@[0] == 'R',
        "Ended"@.len() == 5 && "Ended"@[0] == 'E',
        "Withdrawn"@.len() == 9 && "Withdrawn"@[0] == 'W',
{
    reveal_strlit("Requested");
    reveal_strlit("ApprovalAwaited");
    reveal_strlit("Scheduled");
    reveal_strlit("Activating");
    reveal_strlit("Active");
    reveal_strlit("Revoking");
    reveal_strlit("Withdrawing");
    reveal_strlit("Denied");
    reveal_strlit("ActivationFailed");
    reveal_strlit("Expired");
    reveal_strlit("Revoked");
    reveal_strlit("Ended");
    reveal_strlit("Withdrawn");
}

/// A grant's state as the service reports it. `Other` is any state that has no
/// variant here, with the name it is reported under.
#[derive(Debug)]
pub enum SdkState {
    ApprovalAwaited,
    Scheduled,
    Activating,
    Active,
    Revoking,
    Withdrawing,
    Denied,
    ActivationFailed,
    Expired,
    Revoked,
    Ended,
    Withdrawn,
    Other(String),
}

impl SdkState {
    /// The local state for a reported one.
    pub open spec fn local(self) -> StateModel {
        match self {
            SdkState::ApprovalAwaited => StateModel::ApprovalAwaited,
            SdkState::Scheduled => StateModel::Scheduled,
            SdkState::Activating => StateModel::Activating,
            SdkState::Active => StateModel::Active,
            SdkState::Revoking => StateModel::Revoking,
            SdkState::Withdrawing => StateModel::Withdrawing,
            SdkState::Denied => StateModel::Denied,
            SdkState::ActivationFailed => StateModel::ActivationFailed,
            SdkState::Expired => StateModel::Expired,
            SdkState::Revoked => StateModel::Revoked,
            SdkState::Ended => StateModel::Ended,
            SdkState::Withdrawn => StateModel::Withdrawn,
            SdkState::Other(name) => StateModel::Unknown(name@),
        }
    }
}

/// A reported state keeps its name, and with it whether the grant is active or
/// over.
pub proof fn law_reported_states_keep_their_names(state: SdkState)
    ensures
        state.local().active() <==> state is Active,
        state.local().terminal() <==> (state is Denied || state is ActivationFailed
            || state is Expired || state is Revoked || state is Ended || state is Withdrawn),
        state.local().shown() == match state {
            SdkState::ApprovalAwaited => "ApprovalAwaited"@,
            SdkState::Scheduled => "Scheduled"@,
            SdkState::Activating => "Activating"@,
            SdkState::Active => "Active"@,
            SdkState::Revoking => "Revoking"@,
            SdkState::Withdrawing => "Withdrawing"@,
            SdkState::Denied => "Denied"@,
            SdkState::ActivationFailed => "ActivationFailed"@,
            SdkState::Expired => "Expired"@,
            SdkState::Revoked => "Revoked"@,
            SdkState::Ended => "Ended"@,
            SdkState::Withdrawn => "Withdrawn"@,
            SdkState::Other(name) => "Unknown:"@ + name@,
        },
        !(state.local() is Requested),
{
}

/// Different reported states are different states.
pub proof fn law_reported_states_differ(a: SdkState, b: SdkState)
    requires
        a.local() == b.local(),
    ensures
        a is ApprovalAwaited <==> b is ApprovalAwaited,
        a is Scheduled <==> b is Scheduled,
        a is Activating <==> b is Activating,
        a is Active <==> b is Active,
        a is Revoking <==> b is Revoking,
        a is Withdrawing <==> b is Withdrawing,
        a is Denied <==> b is Denied,
        a is ActivationFailed <==> b is ActivationFailed,
        a is Expired <==> b is Expired,
        a is Revoked <==> b is Revoked,
        a is Ended <==> b is Ended,
        a is Withdrawn <==> b is Withdrawn,
        a matches SdkState::Other(m) ==> (b matches SdkState::Other(n) && m@ == n@),
{
}

/// No two states share a text.
pub proof fn law_state_texts_differ(a: StateModel, b: StateModel)
    requires
        a.shown() == b.shown(),
    ensures
        a == b,
{
    a.law_read_back();
    b.law_read_back();
}

impl GrantState {
    pub fn is_active(&self) -> (r: bool)
        ensures
            r == self@.active(),
            r == (self is Active),
    {
        matches!(self, GrantState::Active)
    }

    pub fn is_terminal(&self) -> (r: bool)
        ensures
            r == self@.terminal(),
            r == (self is Denied || self is ActivationFailed || self is Expired || self is Revoked
                || self is Ended || self is Withdrawn),
    {
        matches!(
            self,
            GrantState::Denied
                | GrantState::ActivationFailed
                | GrantState::Expired
                | GrantState::Revoked
                | GrantState::Ended
                | GrantState::Withdrawn
        )
    }

    /// The local state for a reported one. A state that is not recognised is
    /// `Unknown`, with the name it was reported under.
    pub fn from_sdk(state: &SdkState) -> (r: Self)
        ensures
            r@ == state.local(),
            r is ApprovalAwaited <==> state is ApprovalAwaited,
            r is Scheduled <==> state is Scheduled,
            r is Activating <==> state is Activating,
            r is Active <==> state is Active,
            r is Revoking <==> state is Revoking,
            r is Withdrawing <==> state is Withdrawing,
            r is Denied <==> state is Denied,
            r is ActivationFailed <==> state is ActivationFailed,
            r is Expired <==> state is Expired,
            r is Revoked <==> state is Revoked,
            r is Ended <==> state is Ended,
            r is Withdrawn <==> state is Withdrawn,
            state matches SdkState::Other(name) ==> (r matches GrantState::Unknown(kept) && kept@
                == name@),
    {
        match state {
            SdkState::ApprovalAwaited => GrantState::ApprovalAwaited,
            SdkState::Scheduled => GrantState::Scheduled,
            SdkState::Activating => GrantState::Activating,
            SdkState::Active => GrantState::Active,
            SdkState::Revoking => GrantState::Revoking,
            SdkState::Withdrawing => GrantState::Withdrawing,
            SdkState::Denied => GrantState::Denied,
            SdkState::ActivationFailed => GrantState::ActivationFailed,
            SdkState::Expired => GrantState::Expired,
            SdkState::Revoked => GrantState::Revoked,
            SdkState::Ended => GrantState::Ended,
            SdkState::Withdrawn => GrantState::Withdrawn,
            SdkState::Other(name) => GrantState::Unknown(name.as_str().to_owned()),
        }
    }

    /// The text a state is shown and stored as.
    pub fn to_string(&self) -> (r: String)
        ensures
            r@ == self@.shown(),
            self is Requested ==> r@ == "Requested"@,
            self is ApprovalAwaited ==> r@ == "ApprovalAwaited"@,
            self is Scheduled ==> r@ == "Scheduled"@,
            self is Activating ==> r@ == "Activating"@,
            self is Active ==> r@ == "Active"@,
            self is Revoking ==> r@ == "Revoking"@,
            self is Withdrawing ==> r@ == "Withdrawing"@,
            self is Denied ==> r@ == "Denied"@,
            self is ActivationFailed ==> r@ == "ActivationFailed"@,
            self is Expired ==> r@ == "Expired"@,
            self is Revoked ==> r@ == "Revoked"@,
            self is Ended ==> r@ == "Ended"@,
            self is Withdrawn ==> r@ == "Withdrawn"@,
            self matches GrantState::Unknown(name) ==> r@ == "Unknown:"@ + name@,
    {
        match self {
            GrantState::Requested => "Requested".to_owned(),
            GrantState::ApprovalAwaited => "ApprovalAwaited".to_owned(),
            GrantState::Scheduled => "Scheduled".to_owned(),
            GrantState::Activating => "Activating".to_owned(),
            GrantState::Active => "Active".to_owned(),
            GrantState::Revoking => "Revoking".to_owned(),
            GrantState::Withdrawing => "Withdrawing".to_owned(),
            GrantState::Denied => "Denied".to_owned(),
            GrantState::ActivationFailed => "ActivationFailed".to_owned(),
            GrantState::Expired => "Expired".to_owned(),
            GrantState::Revoked => "Revoked".to_owned(),
            GrantState::Ended => "Ended".to_owned(),
            GrantState::Withdrawn => "Withdrawn".to_owned(),
            GrantState::Unknown(name) => {
                let mut r: String = "Unknown:".to_owned();
                r.append(name.as_str());
                r
            },
        }
    }

    /// Reads a state's text. Every text stands for a state.
    pub fn parse(s: &str) -> (r: Self)
        ensures
            r@ == StateModel::read(s@),
            r is Requested <==> s@ == "Requested"@,
            r is ApprovalAwaited <==> s@ == "ApprovalAwaited"@,
            r is Scheduled <==> s@ == "Scheduled"@,
            r is Activating <==> s@ == "Activating"@,
            r is Active <==> s@ == "Active"@,
            r is Revoking <==> s@ == "Revoking"@,
            r is Withdrawing <==> s@ == "Withdrawing"@,
            r is Denied <==> s@ == "Denied"@,
            r is ActivationFailed <==> s@ == "ActivationFailed"@,
            r is Expired <==> s@ == "Expired"@,
            r is Revoked <==> s@ == "Revoked"@,
            r is Ended <==> s@ == "Ended"@,
            r is Withdrawn <==> s@ == "Withdrawn"@,
            r matches GrantState::Unknown(name) ==> s@ == name@ || s@ == "Unknown:"@ + name@,
    {
        proof {
            lemma_state_names();
        }
        if *s == *"Requested" {
            GrantState::Requested
        } else if *s == *"ApprovalAwaited" {
            GrantState::ApprovalAwaited
        } else if *s == *"Scheduled" {
            GrantState::Scheduled
        } else if *s == *"Activating" {
            GrantState::Activating
        } else if *s == *"Active" {
            GrantState::Active
        } else if *s == *"Revoking" {
            GrantState::Revoking
        } else if *s == *"Withdrawing" {
            GrantState::Withdrawing
        } else if *s == *"Denied" {
            GrantState::Denied
        } else if *s == *"ActivationFailed" {
            GrantState::ActivationFailed
        } else if *s == *"Expired" {
            GrantState::Expired
        } else if *s == *"Revoked" {
            GrantState::Revoked
        } else if *s == *"Ended" {
            GrantState::Ended
        } else if *s == *"Withdrawn" {
            GrantState::Withdrawn
        } else {
            match strip_prefix(s, "Unknown:") {
                Some(name) => {
                    assert(s@ =~= "Unknown:"@ + name@);
                    GrantState::Unknown(name.to_owned())
                },
                None => GrantState::Unknown(s.to_owned()),
            }
        }
    }
}

impl FromStr for GrantState {
    type Err = std::convert::Infallible;

    /// Reads a state's text. It never fails.
    fn from_str(s: &str) -> (r: Result<GrantState, std::convert::Infallible>)
        ensures
            r is Ok,
            r->Ok_0@ == StateModel::read(s@),
    {
        Ok(GrantState::parse(s))
    }
}

// ---------------------------------------------------------------------------
// Resource names
// ---------------------------------------------------------------------------

/// The useful fields of a fully-qualified grant name:
/// `<scope-root>/<id>/locations/<loc>/entitlements/<ent>/grants/<id>`.
#[derive(Debug, Clone, Copy)]
pub struct GrantNameParts<'a> {
    pub scope: Scope,
    pub scope_id: &'a str,
    pub entitlement: &'a str,
}

/// The useful fields of a grant name, as characters.
pub ghost struct NameModel {
    pub scope: Scope,
    pub scope_id: Seq<char>,
    pub entitlement: Seq<char>,
}

impl<'a> View for GrantNameParts<'a> {
    type V = NameModel;

    open spec fn view(&self) -> NameModel {
        NameModel {
            scope: self.scope,
            scope_id: self.scope_id@,
            entitlement: self.entitlement@,
        }
    }
}

/// The scope whose plural is `s`.
pub open spec fn scope_root(s: Seq<char>) -> Option<Scope> {
    if s == "organizations"@ {
        Some(Scope::Organization)
    } else if s == "folders"@ {
        Some(Scope::Folder)
    } else if s == "projects"@ {
        Some(Scope::Project)
    } else {
        None
    }
}

/// A grant name's segments, if `p` are the segments of one.
pub open spec fn segments_parts(p: Seq<Seq<char>>) -> Option<NameModel> {
    if p.len() == 8 && p[2] == "locations"@ && p[4] == "entitlements"@ && p[6] == "grants"@
        && p[1].len() > 0 && p[3].len() > 0 && p[5].len() > 0 && p[7].len() > 0 {
        match scope_root(p[0]) {
            Some(scope) => Some(NameModel { scope, scope_id: p[1], entitlement: p[5] }),
            None => None,
        }
    } else {
        None
    }
}

/// What a grant name says, `None` for a text that is no grant name.
pub open spec fn name_parts(s: Seq<char>) -> Option<NameModel> {
    segments_parts(text::pieces(s, '/'))
}

/// The name of a grant.
pub open spec fn grant_name(
    scope: Scope,
    scope_id: Seq<char>,
    location: Seq<char>,
    entitlement: Seq<char>,
    grant: Seq<char>,
) -> Seq<char> {
    scope.plural_text() + "/"@ + scope_id + "/locations/"@ + location + "/entitlements/"@
        + entitlement + "/grants/"@ + grant
}

/// A segment of a resource name: not empty, and without a slash.
pub open spec fn is_segment(s: Seq<char>) -> bool {
    s.len() > 0 && !s.contains('/')
}

proof fn lemma_plural_free(scope: Scope)
    ensures
        !scope.plural_text().contains('/'),
        scope_root(scope.plural_text()) == Some(scope),
{
    reveal_strlit("projects");
    reveal_strlit("folders");
    reveal_strlit("organizations");
    assert("projects"@[0] == 'p' && "folders"@[0] == 'f' && "organizations"@[0] == 'o');
}

spec fn name_segments(
    scope: Scope,
    scope_id: Seq<char>,
    location: Seq<char>,
    entitlement: Seq<char>,
    grant: Seq<char>,
) -> Seq<Seq<char>> {
    seq![
        scope.plural_text(),
        scope_id,
        "locations"@,
        location,
        "entitlements"@,
        entitlement,
        "grants"@,
        grant,
    ]
}

proof fn lemma_name_is_joined(
    scope: Scope,
    scope_id: Seq<char>,
    location: Seq<char>,
    entitlement: Seq<char>,
    grant: Seq<char>,
)
    ensures
        text::joined(name_segments(scope, scope_id, location, entitlement, grant), seq!['/'])
            == grant_name(scope, scope_id, location, entitlement, grant),
{
    let p = name_segments(scope, scope_id, location, entitlement, grant);
    reveal_strlit("/");
    reveal_strlit("/locations/");
    reveal_strlit("/entitlements/");
    reveal_strlit("/grants/");
    reveal_strlit("locations");
    reveal_strlit("entitlements");
    reveal_strlit("grants");
    let sep = seq!['/'];
    let p7 = p.drop_last();
    let p6 = p7.drop_last();
    let p5 = p6.drop_last();
    let p4 = p5.drop_last();
    let p3 = p4.drop_last();
    let p2 = p3.drop_last();
    let p1 = p2.drop_last();
    assert(text::joined(p1, sep) == scope.plural_text());
    assert(text::joined(p2, sep) == scope.plural_text() + sep + scope_id);
    assert(text::joined(p3, sep) == text::joined(p2, sep) + sep + "locations"@);
    assert(text::joined(p4, sep) == text::joined(p3, sep) + sep + location);
    assert(text::joined(p5, sep) == text::joined(p4, sep) + sep + "entitlements"@);
    assert(text::joined(p6, sep) == text::joined(p5, sep) + sep + entitlement);
    assert(text::joined(p7, sep) == text::joined(p6, sep) + sep + "grants"@);
    assert(text::joined(p, sep) == text::joined(p7, sep) + sep + grant);
    assert("/"@ =~= sep);
    assert("/locations/"@ =~= sep + "locations"@ + sep);
    assert("/entitlements/"@ =~= sep + "entitlements"@ + sep);
    assert("/grants/"@ =~= sep + "grants"@ + sep);
    assert(text::joined(p4, sep) =~= scope.plural_text() + "/"@ + scope_id + "/locations/"@
        + location);
    assert(text::joined(p6, sep) =~= scope.plural_text() + "/"@ + scope_id + "/locations/"@
        + location + "/entitlements/"@ + entitlement);
    assert(text::joined(p, sep) =~= grant_name(scope, scope_id, location, entitlement, grant));
}

/// A grant name built from its segments is read back.
pub proof fn law_built_names_parse(
    scope: Scope,
    scope_id: Seq<char>,
    location: Seq<char>,
    entitlement: Seq<char>,
    grant: Seq<char>,
)
    requires
        is_segment(scope_id),
        is_segment(location),
        is_segment(entitlement),
        is_segment(grant),
    ensures
        name_parts(grant_name(scope, scope_id, location, entitlement, grant)) == Some(
            NameModel { scope, scope_id, entitlement },
        ),
{
    let p = name_segments(scope, scope_id, location, entitlement, grant);
    lemma_plural_free(scope);
    reveal_strlit("locations");
    reveal_strlit("entitlements");
    reveal_strlit("grants");
    lemma_name_is_joined(scope, scope_id, location, entitlement, grant);
    text::lemma_joined_splits(p, '/');
}

/// Only texts built that way are grant names.
pub proof fn law_names_are_built(s: Seq<char>) -> (r: (Seq<char>, Seq<char>))
    requires
        name_parts(s) is Some,
    ensures
        ({
            let m = name_parts(s)->0;
            &&& is_segment(m.scope_id)
            &&& is_segment(m.entitlement)
            &&& is_segment(r.0)
            &&& is_segment(r.1)
            &&& s == grant_name(m.scope, m.scope_id, r.0, m.entitlement, r.1)
        }),
{
    let p = text::pieces(s, '/');
    let m = name_parts(s)->0;
    text::lemma_pieces_joined(s, '/');
    text::lemma_pieces_free(s, '/', 1);
    text::lemma_pieces_free(s, '/', 3);
    text::lemma_pieces_free(s, '/', 5);
    text::lemma_pieces_free(s, '/', 7);
    assert(p =~= name_segments(m.scope, p[1], p[3], p[5], p[7]));
    lemma_name_is_joined(m.scope, p[1], p[3], p[5], p[7]);
    (p[3], p[7])
}

/// Reads a grant's name, `None` when it does not have the shape of one.
pub fn parse_grant_name<'a>(s: &'a str) -> (r: Option<GrantNameParts<'a>>)
    ensures
        match r {
            Some(parts) => name_parts(s@) == Some(parts@),
            None => name_parts(s@) is None,
        },
        r matches Some(parts) ==> exists|location: Seq<char>, grant: Seq<char>|
            s@ == #[trigger] grant_name(
                parts.scope,
                parts.scope_id@,
                location,
                parts.entitlement@,
                grant,
            ) && is_segment(location) && is_segment(grant),
        r matches Some(parts) ==> {
            let p = text::pieces(s@, '/');
            &&& p.len() == 8
            &&& p[0] == (match parts.scope {
                Scope::Project => "projects"@,
                Scope::Folder => "folders"@,
                Scope::Organization => "organizations"@,
            })
            &&& p[1] == parts.scope_id@
            &&& p[2] == "locations"@
            &&& p[4] == "entitlements"@
            &&& p[5] == parts.entitlement@
            &&& p[6] == "grants"@
        },
{
    let parts: Vec<&'a str> = split(s, '/');
    let ghost p = text::pieces(s@, '/');
    assert(forall|i: int| 0 <= i < parts@.len() ==> p[i] == (#[trigger] parts@[i])@);
    if parts.len() != 8 || *parts[2] != *"locations" || *parts[4] != *"entitlements" || *parts[6]
        != *"grants" || parts[1].is_empty() || parts[3].is_empty() || parts[5].is_empty()
        || parts[7].is_empty() {
        return None;
    }
    let scope = if *parts[0] == *"organizations" {
        Scope::Organization
    } else if *parts[0] == *"folders" {
        Scope::Folder
    } else if *parts[0] == *"projects" {
        Scope::Project
    } else {
        return None;
    };
    let read = GrantNameParts { scope, scope_id: parts[1], entitlement: parts[5] };
    proof {
        let (location, grant) = law_names_are_built(s@);
        assert(name_parts(s@) == Some(read@));
        assert(s@ == grant_name(read.scope, read.scope_id@, location, read.entitlement@, grant));
        assert(is_segment(location) && is_segment(grant));
    }
    Some(read)
}

/// Tells whether a text has the shape of a grant's name.
pub fn is_valid_grant_name(s: &str) -> (r: bool)
    ensures
        r == name_parts(s@) is Some,
{
    parse_grant_name(s).is_some()
}

/// A text that is no grant name.
#[derive(Debug)]
pub struct BadGrantName {
    pub name: String,
}

impl BadGrantName {
    /// The error as a sentence.
    pub open spec fn sentence(name: Seq<char>) -> Seq<char> {
        "grant name does not match expected resource shape: '"@ + name + "'"@
    }

    /// The error as a sentence.
    pub fn message(&self) -> (r: String)
        ensures
            r@ == Self::sentence(self.name@),
    {
        let mut r: String = "grant name does not match expected resource shape: '".to_owned();
        r.append(self.name.as_str());
        r.append("'");
        r
    }
}

/// The scope, the scope's id and the entitlement's short name in a grant's
/// name.
pub fn parse_scope_from_name(name: &str) -> (r: Result<(Scope, String, String), BadGrantName>)
    ensures
        match r {
            Ok((scope, scope_id, entitlement)) => name_parts(name@) == Some(
                NameModel { scope, scope_id: scope_id@, entitlement: entitlement@ },
            ),
            Err(e) => name_parts(name@) is None && e.name@ == name@,
        },
{
    match parse_grant_name(name) {
        Some(parts) => Ok((parts.scope, parts.scope_id.to_owned(), parts.entitlement.to_owned())),
        None => Err(BadGrantName { name: name.to_owned() }),
    }
}

// ---------------------------------------------------------------------------
// Durations
// ---------------------------------------------------------------------------

/// The shortest grant that can be requested.
pub const MIN_DURATION_SECS: i64 = 1800;

/// The seconds that one unit of a duration stands for, by its last character:
/// hours, minutes, seconds, or bare seconds for a digit.
pub open spec fn unit_secs(c: char) -> Option<int> {
    if c == 'h' || c == 'H' {
        Some(3600)
    } else if c == 'm' || c == 'M' {
        Some(60)
    } else if c == 's' || c == 'S' || text::is_digit(c) {
        Some(1)
    } else {
        None
    }
}

/// The seconds a duration text stands for: `1h`, `30m`, `5400s` or bare
/// seconds, with white space around it dropped. Only positive durations that
/// 64 bits hold are durations.
pub open spec fn duration_secs(s: Seq<char>) -> Option<i64> {
    let t = text::trimmed(s);
    if t.len() == 0 {
        None
    } else {
        match unit_secs(t.last()) {
            Some(unit) => {
                let digits = if text::is_digit(t.last()) {
                    t
                } else {
                    t.drop_last()
                };
                match numbers::parsed_i64(digits) {
                    Some(n) => if n > 0 && n * unit <= i64::MAX {
                        Some((n * unit) as i64)
                    } else {
                        None
                    },
                    None => None,
                }
            },
            None => None,
        }
    }
}

/// Digits with a unit behind them stand for so many hours, minutes or seconds,
/// as long as there is time at all and 64 bits hold it.
pub proof fn law_durations_count_units(digits: Seq<char>, unit: char, factor: int)
    requires
        digits.len() > 0,
        numbers::all_digits(digits),
        ((unit == 'h' || unit == 'H') && factor == 3600) || ((unit == 'm' || unit == 'M')
            && factor == 60) || ((unit == 's' || unit == 'S') && factor == 1),
    ensures
        match duration_secs(digits.push(unit)) {
            Some(secs) => secs == numbers::digits_value(digits) * factor && secs > 0,
            None => numbers::digits_value(digits) == 0 || numbers::digits_value(digits) * factor
                > i64::MAX,
        },
{
    let t = digits.push(unit);
    let n = numbers::digits_value(digits);
    assert(text::is_digit(digits[0]));
    assert(t.first() == digits[0]);
    text::lemma_trimmed_whole(t);
    assert(t.drop_last() =~= digits);
    assert(numbers::int_value(digits) == Some(n as int));
    assert(n * factor >= n) by (nonlinear_arith)
        requires
            factor >= 1,
            n >= 0,
    ;
}

/// Digits alone stand for so many seconds.
pub proof fn law_bare_durations_are_seconds(digits: Seq<char>)
    requires
        digits.len() > 0,
        numbers::all_digits(digits),
    ensures
        match duration_secs(digits) {
            Some(secs) => secs == numbers::digits_value(digits) && secs > 0,
            None => numbers::digits_value(digits) == 0 || numbers::digits_value(digits) > i64::MAX,
        },
{
    assert(text::is_digit(digits[0]));
    assert(text::is_digit(digits.last()));
    text::lemma_trimmed_whole(digits);
    assert(numbers::int_value(digits) == Some(numbers::digits_value(digits) as int));
}

/// The decimal text of a number with a unit behind it stands for so many units.
pub proof fn law_durations_of_numbers(n: nat)
    requires
        n > 0,
        n * 3600 <= i64::MAX,
    ensures
        duration_secs(numbers::decimal(n).push('h')) == Some((n * 3600) as i64),
        duration_secs(numbers::decimal(n).push('m')) == Some((n * 60) as i64),
        duration_secs(numbers::decimal(n).push('s')) == Some(n as i64),
        duration_secs(numbers::decimal(n)) == Some(n as i64),
{
    numbers::law_decimal_reads_back(n);
    law_durations_count_units(numbers::decimal(n), 'h', 3600);
    law_durations_count_units(numbers::decimal(n), 'm', 60);
    law_durations_count_units(numbers::decimal(n), 's', 1);
    law_bare_durations_are_seconds(numbers::decimal(n));
}

/// White space around a duration makes no difference.
pub proof fn law_durations_ignore_space(before: Seq<char>, s: Seq<char>, after: Seq<char>)
    requires
        text::all_white(before),
        text::all_white(after),
    ensures
        duration_secs(before + s + after) == duration_secs(s),
{
    text::law_trimming_ignores_space(before, s, after);
}

/// What is read as a duration is positive, and a whole number of the units it
/// ends in.
pub proof fn law_durations_are_whole_units(s: Seq<char>)
    requires
        duration_secs(s) is Some,
    ensures
        duration_secs(s)->0 > 0,
        ({
            let c = text::trimmed(s).last();
            &&& c == 'h' || c == 'H' || c == 'm' || c == 'M' || c == 's' || c == 'S' || '0' <= c <= '9'
            &&& (c == 'h' || c == 'H') ==> duration_secs(s)->0 % 3600 == 0
            &&& (c == 'm' || c == 'M') ==> duration_secs(s)->0 % 60 == 0
        }),
{
    let t = text::trimmed(s);
    let digits = if text::is_digit(t.last()) {
        t
    } else {
        t.drop_last()
    };
    let n = numbers::parsed_i64(digits)->0;
    let unit = unit_secs(t.last())->0;
    assert(n * unit >= n) by (nonlinear_arith)
        requires
            unit >= 1,
            n > 0,
    ;
    assert(unit == 3600 ==> (n * 3600) % 3600 == 0);
    assert(unit == 60 ==> (n * 60) % 60 == 0);
}

/// Reads a duration.
pub fn parse_duration(s: &str) -> (r: Option<i64>)
    ensures
        r == duration_secs(s@),
{
    let t: &str = trim(s);
    let n: usize = t.unicode_len();
    if n == 0 {
        return None;
    }
    let c: char = t.get_char(n - 1);
    let (digits, unit): (&str, i64) = if c == 'h' || c == 'H' {
        (t.substring_char(0, n - 1), 3600)
    } else if c == 'm' || c == 'M' {
        (t.substring_char(0, n - 1), 60)
    } else if c == 's' || c == 'S' {
        (t.substring_char(0, n - 1), 1)
    } else if c >= '0' && c <= '9' {
        (t, 1)
    } else {
        return None;
    };
    assert(t@.subrange(0, n - 1) =~= t@.drop_last());
    match parse_i64(digits) {
        Some(k) => if k <= 0 {
            None
        } else {
            k.checked_mul(unit)
        },
        None => None,
    }
}

// ---------------------------------------------------------------------------
// Requests
// ---------------------------------------------------------------------------

/// `google_cloud_wkt::Duration::new` with no nanoseconds: the seconds of the
/// duration it makes. It makes one exactly where the seconds are at most
/// 315 576 000 000 on either side of zero, and keeps them.
#[verifier::external_body]
fn wire_seconds(secs: i64) -> (r: Option<i64>)
    ensures
        r == (if -315_576_000_000 <= secs <= 315_576_000_000 {
            Some(secs)
        } else {
            None
        }),
{
    match google_cloud_wkt::Duration::new(secs, 0) {
        Ok(d) => Some(d.seconds()),
        Err(_) => None,
    }
}

/// A grant to be created.
#[derive(Debug)]
pub struct CreateRequest {
    /// The entitlement's resource name.
    pub parent: String,
    pub duration_secs: i64,
    /// The justification, where there is one to send.
    pub justification: Option<String>,
}

/// A duration that cannot be sent.
#[derive(Debug)]
pub struct InvalidDuration {
    pub secs: i64,
}

/// Tells whether a duration can be sent.
pub open spec fn sendable(secs: int) -> bool {
    -315_576_000_000 <= secs <= 315_576_000_000
}

/// The request that creates a grant. An empty justification is left out.
pub fn create_request(
    entitlement_name: &str,
    duration_secs: i64,
    justification: Option<&str>,
) -> (r: Result<CreateRequest, InvalidDuration>)
    ensures
        r is Ok <==> sendable(duration_secs as int),
        r is Ok <==> -315_576_000_000 <= duration_secs <= 315_576_000_000,
        r matches Ok(q) ==> {
            &&& q.parent@ == entitlement_name@
            &&& q.duration_secs == duration_secs
            &&& q.justification.deep_view() == text::kept_non_empty(text::opt_text(justification))
            &&& q.justification is Some <==> (justification matches Some(t) && t@.len() > 0)
            &&& q.justification matches Some(kept) ==> kept@ == justification->0@
        },
        r matches Err(e) ==> e.secs == duration_secs,
{
    match wire_seconds(duration_secs) {
        Some(secs) => Ok(
            CreateRequest {
                parent: entitlement_name.to_owned(),
                duration_secs: secs,
                justification: match non_empty(justification) {
                    Some(t) => Some(t.to_owned()),
                    None => None,
                },
            },
        ),
        None => Err(InvalidDuration { secs: duration_secs }),
    }
}

/// A decision on a grant that awaits approval.
#[derive(Debug)]
pub struct ReviewRequest {
    pub name: String,
    /// The reason, where there is one to send.
    pub reason: Option<String>,
}

/// The request that approves or denies a grant. An empty reason is left out.
pub fn review_request(grant_name: &str, reason: Option<&str>) -> (r: ReviewRequest)
    ensures
        r.name@ == grant_name@,
        r.reason.deep_view() == text::kept_non_empty(text::opt_text(reason)),
        r.reason is Some <==> (reason matches Some(t) && t@.len() > 0),
        r.reason matches Some(kept) ==> kept@ == reason->0@,
{
    ReviewRequest {
        name: grant_name.to_owned(),
        reason: match non_empty(reason) {
            Some(t) => Some(t.to_owned()),
            None => None,
        },
    }
}

// ---------------------------------------------------------------------------
// Details
// ---------------------------------------------------------------------------

/// What the approval screen shows of a grant.
#[derive(Debug)]
pub struct GrantDetails {
    pub name: String,
    pub state: GrantState,
    pub requester: String,
    pub requested_duration_secs: i64,
    pub justification: Option<String>,
    pub role_bindings: Vec<RoleBindingView>,
    pub scope_type: Scope,
    pub scope_id: String,
    pub entitlement_short_name: String,
}

/// A role that a grant gives, and the condition it gives it under.
#[derive(Debug)]
pub struct RoleBindingView {
    pub role: String,
    pub condition: Option<String>,
}

/// A role binding, as characters.
pub ghost struct BindingModel {
    pub role: Seq<char>,
    pub condition: Option<Seq<char>>,
}

impl View for RoleBindingView {
    type V = BindingModel;

    open spec fn view(&self) -> BindingModel {
        BindingModel { role: self.role@, condition: self.condition.deep_view() }
    }
}

/// A grant's details, as characters.
pub ghost struct DetailsModel {
    pub name: Seq<char>,
    pub state: StateModel,
    pub requester: Seq<char>,
    pub requested_duration_secs: int,
    pub justification: Option<Seq<char>>,
    pub role_bindings: Seq<BindingModel>,
    pub scope_type: Scope,
    pub scope_id: Seq<char>,
    pub entitlement_short_name: Seq<char>,
}

/// The models of a list of role bindings.
pub open spec fn binding_models(v: Seq<RoleBindingView>) -> Seq<BindingModel> {
    Seq::new(v.len(), |i: int| v[i]@)
}

impl View for GrantDetails {
    type V = DetailsModel;

    open spec fn view(&self) -> DetailsModel {
        DetailsModel {
            name: self.name@,
            state: self.state@,
            requester: self.requester@,
            requested_duration_secs: self.requested_duration_secs as int,
            justification: self.justification.deep_view(),
            role_bindings: binding_models(self.role_bindings@),
            scope_type: self.scope_type,
            scope_id: self.scope_id@,
            entitlement_short_name: self.entitlement_short_name@,
        }
    }
}

impl Clone for RoleBindingView {
    fn clone(&self) -> (r: Self)
        ensures
            r@ == self@,
    {
        RoleBindingView {
            role: self.role.as_str().to_owned(),
            condition: self.condition.clone(),
        }
    }
}

/// A role binding as the service reports it: no condition is an empty one.
#[derive(Debug)]
pub struct RoleBindingRecord {
    pub role: String,
    pub condition_expression: String,
}

/// A grant as the service reports it. `role_bindings` is `None` where the
/// grant gives no access through roles.
#[derive(Debug)]
pub struct GrantRecord {
    pub name: String,
    pub state: SdkState,
    pub requester: String,
    pub requested_duration_secs: Option<i64>,
    pub justification: Option<String>,
    pub role_bindings: Option<Vec<RoleBindingRecord>>,
}

/// A reported role binding: an empty condition is none.
pub open spec fn projected_binding(b: RoleBindingRecord) -> BindingModel {
    BindingModel { role: b.role@, condition: text::some_unless_empty(b.condition_expression@) }
}

/// The role bindings of a reported grant.
pub open spec fn projected_bindings(o: Option<Vec<RoleBindingRecord>>) -> Seq<BindingModel> {
    match o {
        Some(v) => Seq::new(v@.len(), |i: int| projected_binding(v@[i])),
        None => Seq::empty(),
    }
}

/// The details of a reported grant: no duration counts as none at all, and
/// the scope and the entitlement come from the grant's name.
pub open spec fn projected(g: GrantRecord, m: NameModel) -> DetailsModel {
    DetailsModel {
        name: g.name@,
        state: g.state.local(),
        requester: g.requester@,
        requested_duration_secs: match g.requested_duration_secs {
            Some(secs) => secs as int,
            None => 0,
        },
        justification: g.justification.deep_view(),
        role_bindings: projected_bindings(g.role_bindings),
        scope_type: m.scope,
        scope_id: m.scope_id,
        entitlement_short_name: m.entitlement,
    }
}

fn project_bindings(o: Option<Vec<RoleBindingRecord>>) -> (r: Vec<RoleBindingView>)
    ensures
        binding_models(r@) == projected_bindings(o),
        o is None ==> r@.len() == 0,
        o matches Some(v) ==> r@.len() == v@.len() && forall|i: int|
            0 <= i < v@.len() ==> {
                let b = #[trigger] r@[i];
                &&& b.role@ == v@[i].role@
                &&& b.condition is Some <==> v@[i].condition_expression@.len() > 0
                &&& b.condition matches Some(t) ==> t@ == v@[i].condition_expression@
            },
{
    let mut out: Vec<RoleBindingView> = Vec::new();
    match o {
        Some(v) => {
            let mut i: usize = 0;
            while i < v.len()
                invariant
                    i <= v.len(),
                    out.len() == i,
                    forall|k: int| 0 <= k < i ==> (#[trigger] out@[k])@ == projected_binding(v@[k]),
                    forall|k: int|
                        0 <= k < i ==> {
                            let b = #[trigger] out@[k];
                            &&& b.role@ == v@[k].role@
                            &&& b.condition is Some <==> v@[k].condition_expression@.len() > 0
                            &&& b.condition matches Some(t) ==> t@ == v@[k].condition_expression@
                        },
                decreases v.len() - i,
            {
                out.push(
                    RoleBindingView {
                        role: v[i].role.as_str().to_owned(),
                        condition: unless_empty(v[i].condition_expression.as_str().to_owned()),
                    },
                );
                i += 1;
            }
            assert(binding_models(out@) =~= projected_bindings(Some(v)));
        },
        None => {
            assert(binding_models(out@) =~= Seq::<BindingModel>::empty());
        },
    }
    out
}

/// The details of a reported grant carry what was reported, and the scope and
/// the entitlement that its name is built from.
pub proof fn law_details_carry_the_report(
    g: GrantRecord,
    scope: Scope,
    scope_id: Seq<char>,
    location: Seq<char>,
    entitlement: Seq<char>,
    grant: Seq<char>,
)
    requires
        is_segment(scope_id),
        is_segment(location),
        is_segment(entitlement),
        is_segment(grant),
        g.name@ == grant_name(scope, scope_id, location, entitlement, grant),
    ensures
        name_parts(g.name@) is Some,
        ({
            let d = projected(g, name_parts(g.name@)->0);
            &&& d.name == g.name@
            &&& d.requester == g.requester@
            &&& d.state.shown() == g.state.local().shown()
            &&& d.justification is Some <==> g.justification is Some
            &&& g.justification matches Some(t) ==> d.justification == Some(t@)
            &&& g.requested_duration_secs matches Some(secs) ==> d.requested_duration_secs == secs
            &&& g.requested_duration_secs is None ==> d.requested_duration_secs == 0
            &&& d.scope_type == scope
            &&& d.scope_id == scope_id
            &&& d.entitlement_short_name == entitlement
            &&& g.role_bindings is None ==> d.role_bindings.len() == 0
            &&& g.role_bindings matches Some(v) ==> d.role_bindings.len() == v@.len() && forall|
                i: int,
            |
                0 <= i < v@.len() ==> (#[trigger] d.role_bindings[i]).role == v@[i].role@
                    && d.role_bindings[i].condition == (if v@[i].condition_expression@.len() > 0 {
                    Some(v@[i].condition_expression@)
                } else {
                    None
                })
        }),
{
    law_built_names_parse(scope, scope_id, location, entitlement, grant);
}

/// Projects a reported grant to what the approval screen shows.
pub fn get_details(g: GrantRecord) -> (r: Result<GrantDetails, BadGrantName>)
    ensures
        match r {
            Ok(d) => name_parts(g.name@) is Some && d@ == projected(g, name_parts(g.name@)->0),
            Err(e) => name_parts(g.name@) is None && e.name@ == g.name@,
        },
        r matches Ok(d) ==> {
            &&& d.name@ == g.name@
            &&& d.requester@ == g.requester@
            &&& d.requested_duration_secs == (match g.requested_duration_secs {
                Some(secs) => secs,
                None => 0,
            })
            &&& d.justification is Some <==> g.justification is Some
            &&& d.justification matches Some(t) ==> t@ == g.justification->0@
            &&& d.state@ == g.state.local()
            &&& exists|location: Seq<char>, grant: Seq<char>|
                g.name@ == #[trigger] grant_name(
                    d.scope_type,
                    d.scope_id@,
                    location,
                    d.entitlement_short_name@,
                    grant,
                )
            &&& g.role_bindings matches Some(v) ==> d.role_bindings@.len() == v@.len()
            &&& g.role_bindings is None ==> d.role_bindings@.len() == 0
            &&& g.role_bindings matches Some(v) ==> forall|i: int|
                0 <= i < v@.len() ==> {
                    let b = #[trigger] d.role_bindings@[i];
                    &&& b.role@ == v@[i].role@
                    &&& b.condition is Some <==> v@[i].condition_expression@.len() > 0
                    &&& b.condition matches Some(t) ==> t@ == v@[i].condition_expression@
                }
        },
{
    match parse_scope_from_name(g.name.as_str()) {
        Ok((scope_type, scope_id, entitlement_short_name)) => {
            proof {
                let (location, grant) = law_names_are_built(g.name@);
            }
            let requested_duration_secs: i64 = match g.requested_duration_secs {
                Some(secs) => secs,
                None => 0,
            };
            let state = GrantState::from_sdk(&g.state);
            let role_bindings = project_bindings(g.role_bindings);
            Ok(
                GrantDetails {
                    state,
                    name: g.name,
                    requester: g.requester,
                    requested_duration_secs,
                    justification: g.justification,
                    role_bindings,
                    scope_type,
                    scope_id,
                    entitlement_short_name,
                },
            )
        },
        Err(e) => Err(e),
    }
}

impl Clone for GrantDetails {
    fn clone(&self) -> (r: Self)
        ensures
            r@ == self@,
    {
        let mut role_bindings: Vec<RoleBindingView> = Vec::new();
        let mut i: usize = 0;
        while i < self.role_bindings.len()
            invariant
                i <= self.role_bindings.len(),
                role_bindings.len() == i,
                forall|k: int|
                    0 <= k < i ==> (#[trigger] role_bindings@[k])@ == self.role_bindings@[k]@,
            decreases self.role_bindings.len() - i,
        {
            role_bindings.push(self.role_bindings[i].clone());
            i += 1;
        }
        assert(binding_models(role_bindings@) =~= binding_models(self.role_bindings@));
        GrantDetails {
            name: self.name.as_str().to_owned(),
            state: self.state.clone(),
            requester: self.requester.as_str().to_owned(),
            requested_duration_secs: self.requested_duration_secs,
            justification: self.justification.clone(),
            role_bindings,
            scope_type: self.scope_type,
            scope_id: self.scope_id.as_str().to_owned(),
            entitlement_short_name: self.entitlement_short_name.as_str().to_owned(),
        }
    }
}

} // verus!
