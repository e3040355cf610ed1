//! Approval events that other processes send over the local socket.
use vstd::prelude::*;
use vstd::string::*;
use crate::gcp::grants;
use crate::text;
use crate::text::split;

verus! {

/// An approval event. On the wire: one JSON object per line.
#[derive(Debug)]
pub struct ApprovalEvent {
    pub name: String,
    pub source: Option<String>,
}

/// An approval event, as characters.
pub ghost struct ApprovalModel {
    pub name: Seq<char>,
    pub source: Option<Seq<char>>,
}

impl View for ApprovalEvent {
    type V = ApprovalModel;

    open spec fn view(&self) -> ApprovalModel {
        ApprovalModel { name: self.name@, source: self.source.deep_view() }
    }
}

impl Clone for ApprovalEvent {
    fn clone(&self) -> (r: Self)
        ensures
            r@ == self@,
    {
        ApprovalEvent { name: self.name.as_str().to_owned(), source: self.source.clone() }
    }
}

/// The name of the socket's file.
pub const SOCKET_FILE: &'static str = "gpam.sock";

/// A grant's name, by its segments.
pub open spec fn valid_segments(p: Seq<Seq<char>>) -> bool {
    &&& p.len() == 8
    &&& p[0] == "organizations"@ || p[0] == "folders"@ || p[0] == "projects"@
    &&& p[1].len() > 0
    &&& p[2] == "locations"@
    &&& p[3].len() > 0
    &&& p[4] == "entitlements"@
    &&& p[5].len() > 0
    &&& p[6] == "grants"@
    &&& p[7].len() > 0
}

/// Tells whether a text has the shape of a grant's name:
/// `<scope-root>/<id>/locations/<loc>/entitlements/<ent>/grants/<id>`.
pub fn is_valid_grant_name(s: &str) -> (r: bool)
    ensures
        r == valid_segments(text::pieces(s@, '/')),
        r == grants::name_parts(s@) is Some,
{
    let parts: Vec<&str> = split(s, '/');
    let ghost p = text::pieces(s@, '/');
    assert(forall|i: int| 0 <= i < parts@.len() ==> p[i] == (#[trigger] parts@[i])@);
    proof {
        law_validators_agree(s@);
    }
    if parts.len() != 8 {
        return false;
    }
    (*parts[0] == *"organizations" || *parts[0] == *"folders" || *parts[0] == *"projects")
        && !parts[1].is_empty() && *parts[2] == *"locations" && !parts[3].is_empty() && *parts[4]
        == *"entitlements" && !parts[5].is_empty() && *parts[6] == *"grants" && !parts[7].is_empty()
}

/// A name is valid for the socket exactly when it can be taken apart.
pub proof fn law_validators_agree(s: Seq<char>)
    ensures
        valid_segments(text::pieces(s, '/')) <==> grants::name_parts(s) is Some,
{
}

/// Why no connection to the socket was made.
#[derive(Debug)]
pub enum ConnectFailure {
    /// There is no socket.
    NotFound,
    /// There is a socket, and nobody listens at it.
    Refused,
    /// Anything else, in words.
    Other(String),
}

impl ConnectFailure {
    /// The failure as a sentence.
    pub open spec fn sentence(&self, path: Seq<char>) -> Seq<char> {
        match self {
            ConnectFailure::NotFound => "no gpam TUI listening at "@ + path
                + " (start gpam in another terminal first)"@,
            ConnectFailure::Refused => "stale socket at "@ + path + " (no live listener)"@,
            ConnectFailure::Other(e) => "connecting to "@ + path + ": "@ + e@,
        }
    }

    /// The failure as a sentence, with the socket's path.
    pub fn message(&self, path: &str) -> (r: String)
        ensures
            r@ == self.sentence(path@),
    {
        match self {
            ConnectFailure::NotFound => {
                let mut r: String = "no gpam TUI listening at ".to_owned();
                r.append(path);
                r.append(" (start gpam in another terminal first)");
                r
            },
            ConnectFailure::Refused => {
                let mut r: String = "stale socket at ".to_owned();
                r.append(path);
                r.append(" (no live listener)");
                r
            },
            ConnectFailure::Other(e) => {
                let mut r: String = "connecting to ".to_owned();
                r.append(path);
                r.append(": ");
                r.append(e.as_str());
                r
            },
        }
    }
}

/// Ends an encoded event with a line feed.
pub fn frame_line(encoded: Vec<u8>) -> (r: Vec<u8>)
    ensures
        r@ == encoded@.push(10u8),
{
    let mut line: Vec<u8> = encoded;
    line.push(10);
    line
}

/// An event carries the grant's name and where it came from.
pub proof fn law_event_says_what_it_holds(event: ApprovalEvent)
    ensures
        event@.name == event.name@,
        event.source is None ==> event@.source is None,
        event.source matches Some(t) ==> event@.source == Some(t@),
{
}

/// A failure to connect names the socket, and what else went wrong.
pub proof fn law_failure_names_the_socket(failure: ConnectFailure, path: Seq<char>)
    ensures
        text::has_text(failure.sentence(path), path),
        failure matches ConnectFailure::Other(e) ==> text::has_text(failure.sentence(path), e@),
        failure is NotFound ==> text::has_text(failure.sentence(path), "no gpam TUI listening"@),
        failure is Refused ==> text::has_text(failure.sentence(path), "stale socket"@),
{
    match failure {
        ConnectFailure::NotFound => {
            let rest = " (start gpam in another terminal first)"@;
            text::law_occurrence("no gpam TUI listening at "@, path, rest);
            reveal_strlit("no gpam TUI listening at ");
            reveal_strlit("no gpam TUI listening");
            reveal_strlit(" at ");
            let s = failure.sentence(path);
            assert("no gpam TUI listening at "@ =~= "no gpam TUI listening"@ + " at "@);
            assert(s =~= Seq::<char>::empty() + "no gpam TUI listening"@ + (" at "@ + path + rest));
            text::law_occurrence(Seq::empty(), "no gpam TUI listening"@, " at "@ + path + rest);
        },
        ConnectFailure::Refused => {
            let rest = " (no live listener)"@;
            text::law_occurrence("stale socket at "@, path, rest);
            reveal_strlit("stale socket at ");
            reveal_strlit("stale socket");
            reveal_strlit(" at ");
            let s = failure.sentence(path);
            assert("stale socket at "@ =~= "stale socket"@ + " at "@);
            assert(s =~= Seq::<char>::empty() + "stale socket"@ + (" at "@ + path + rest));
            text::law_occurrence(Seq::empty(), "stale socket"@, " at "@ + path + rest);
        },
        ConnectFailure::Other(e) => {
            let s = failure.sentence(path);
            assert(s =~= "connecting to "@ + path + (": "@ + e@));
            text::law_occurrence("connecting to "@, path, ": "@ + e@);
            assert(s =~= ("connecting to "@ + path + ": "@) + e@ + Seq::<char>::empty());
            text::law_occurrence("connecting to "@ + path + ": "@, e@, Seq::empty());
        },
    }
}

} // verus!
