//! The screen of pending approval events.
use std::collections::VecDeque;
use std::time::SystemTime;
use vstd::prelude::*;
use vstd::string::*;
use crate::cache::schema;
use crate::cache::schema::{secs_since, unix_stamp};
use crate::gcp::Scope;
use crate::gcp::grants;
use crate::gcp::grants::parse_grant_name;
use crate::ipc::{ApprovalEvent, ApprovalModel};
use crate::numbers;
use crate::numbers::u64_text;
use crate::text;
use crate::text::{pad_right, truncate};
use crate::tui::keymap;
use crate::tui::keymap::{KeyCode, KeyEvent, ctrl_c};
use crate::tui::styled;
use crate::tui::styled::{Line, SpanModel, Tone};
use crate::tui::widgets;
use crate::tui::widgets::format_age;

verus! {

/// How the queue screen was left. `Back` returns to the list, `Quit` ends the
/// program.
#[derive(Debug, Clone, Copy, PartialEq, Eq, Structural)]
pub enum QueueExit {
    Back,
    Quit,
}

/// An event with the time it came in.
#[derive(Debug)]
pub struct QueuedEvent {
    pub event: ApprovalEvent,
    pub received_at: SystemTime,
}

/// The events that came in, the oldest first.
pub type Queue = VecDeque<QueuedEvent>;

/// A queue without events.
pub fn new_queue() -> (r: Queue)
    ensures
        r@ == Seq::<QueuedEvent>::empty(),
{
    VecDeque::new()
}

#[derive(Debug, Clone, Copy, PartialEq, Eq, Structural)]
pub enum QueueAction {
    Up,
    Down,
    Top,
    Bottom,
    Drop,
    Back,
    Quit,
}

/// What a key does in the queue.
pub open spec fn decided(key: KeyEvent) -> Option<QueueAction> {
    if keymap::is_ctrl_c(key) {
        Some(QueueAction::Quit)
    } else {
        match key.code {
            KeyCode::Down => Some(QueueAction::Down),
            KeyCode::Up => Some(QueueAction::Up),
            KeyCode::Esc => Some(QueueAction::Back),
            KeyCode::Char(c) => if c == 'j' {
                Some(QueueAction::Down)
            } else if c == 'k' {
                Some(QueueAction::Up)
            } else if c == 'g' {
                Some(QueueAction::Top)
            } else if c == 'G' {
                Some(QueueAction::Bottom)
            } else if c == 'd' || c == 'x' {
                Some(QueueAction::Drop)
            } else if c == 'q' {
                Some(QueueAction::Back)
            } else {
                None
            },
            _ => None,
        }
    }
}

/// What a key does in the queue.
pub fn decide(key: KeyEvent) -> (r: Option<QueueAction>)
    ensures
        r == decided(key),
{
    if ctrl_c(key) {
        return Some(QueueAction::Quit);
    }
    match key.code {
        KeyCode::Char('j') | KeyCode::Down => Some(QueueAction::Down),
        KeyCode::Char('k') | KeyCode::Up => Some(QueueAction::Up),
        KeyCode::Char('g') => Some(QueueAction::Top),
        KeyCode::Char('G') => Some(QueueAction::Bottom),
        KeyCode::Char('d') | KeyCode::Char('x') => Some(QueueAction::Drop),
        KeyCode::Esc | KeyCode::Char('q') => Some(QueueAction::Back),
        _ => None,
    }
}

/// The row the cursor is on, when `shown` rows are shown.
pub open spec fn clamped(cursor: nat, shown: nat) -> nat {
    if cursor >= shown {
        (shown - 1) as nat
    } else {
        cursor
    }
}

/// The row the cursor is on after an action.
pub open spec fn moved(cursor: nat, shown: nat, action: QueueAction) -> nat {
    match action {
        QueueAction::Up => if cursor > 0 {
            (cursor - 1) as nat
        } else {
            0
        },
        QueueAction::Down => if cursor + 1 < shown {
            cursor + 1
        } else {
            cursor
        },
        QueueAction::Top => 0,
        QueueAction::Bottom => (shown - 1) as nat,
        _ => cursor,
    }
}

/// How an action leaves the screen.
pub open spec fn exit_of(action: QueueAction) -> Option<QueueExit> {
    match action {
        QueueAction::Back => Some(QueueExit::Back),
        QueueAction::Quit => Some(QueueExit::Quit),
        _ => None,
    }
}

/// The state of the queue screen: the row the cursor is on.
#[derive(Debug)]
pub struct QueueScreen {
    pub cursor: usize,
}

impl QueueScreen {
    pub fn new() -> (r: Self)
        ensures
            r.cursor == 0,
    {
        QueueScreen { cursor: 0 }
    }

    /// Gets ready to show a number of rows. The screen is left when there are
    /// none.
    pub fn prepare(&mut self, shown: usize) -> (r: Option<QueueExit>)
        ensures
            shown == 0 ==> r == Some(QueueExit::Back) && *final(self) == *old(self),
            shown > 0 ==> r is None && final(self).cursor == clamped(
                old(self).cursor as nat,
                shown as nat,
            ),
            old(self).cursor < shown ==> final(self).cursor == old(self).cursor,
            0 < shown <= old(self).cursor ==> final(self).cursor == shown - 1,
    {
        if shown == 0 {
            return Some(QueueExit::Back);
        }
        if self.cursor >= shown {
            self.cursor = shown - 1;
        }
        None
    }

    /// Takes in a key, while `shown` rows are shown. The queue may have grown
    /// since then.
    pub fn handle_key(&mut self, key: KeyEvent, shown: usize, queue: &mut Queue) -> (r: Option<
        QueueExit,
    >)
        requires
            old(self).cursor < shown,
        ensures
            match decided(key) {
                Some(action) => {
                    &&& final(self).cursor == moved(
                        old(self).cursor as nat,
                        shown as nat,
                        action,
                    )
                    &&& final(queue)@ == (if action == QueueAction::Drop && old(self).cursor
                        < old(queue)@.len() {
                        old(queue)@.remove(old(self).cursor as int)
                    } else {
                        old(queue)@
                    })
                    &&& r == exit_of(action)
                },
                None => *final(self) == *old(self) && final(queue)@ == old(queue)@ && r is None,
            },
            decided(key) == Some(QueueAction::Drop) && old(self).cursor < old(queue)@.len() ==> {
                &&& final(queue)@.len() == old(queue)@.len() - 1
                &&& forall|i: int|
                    0 <= i < old(self).cursor ==> #[trigger] final(queue)@[i] == old(queue)@[i]
                &&& forall|i: int|
                    old(self).cursor <= i < final(queue)@.len() ==> #[trigger] final(queue)@[i]
                        == old(queue)@[i + 1]
            },
            decided(key) != Some(QueueAction::Drop) ==> final(queue)@ == old(queue)@,
            r == Some(QueueExit::Back) <==> decided(key) == Some(QueueAction::Back),
            r == Some(QueueExit::Quit) <==> decided(key) == Some(QueueAction::Quit),
    {
        match decide(key) {
            Some(QueueAction::Up) => {
                self.cursor = self.cursor.saturating_sub(1);
            },
            Some(QueueAction::Down) => {
                if self.cursor < shown - 1 {
                    self.cursor = self.cursor + 1;
                }
            },
            Some(QueueAction::Top) => {
                self.cursor = 0;
            },
            Some(QueueAction::Bottom) => {
                self.cursor = shown - 1;
            },
            Some(QueueAction::Drop) => {
                if self.cursor < queue.len() {
                    let _ = queue.remove(self.cursor);
                }
            },
            Some(QueueAction::Back) => {
                return Some(QueueExit::Back);
            },
            Some(QueueAction::Quit) => {
                return Some(QueueExit::Quit);
            },
            None => {},
        }
        None
    }
}

// ---------------------------------------------------------------------------
// What is shown
// ---------------------------------------------------------------------------

/// The text above the list.
pub open spec fn header_text(shown: nat) -> Seq<char> {
    " pending approvals ("@ + numbers::decimal(shown) + ") "@
}

/// The text above the list.
pub fn header(shown: usize) -> (r: String)
    ensures
        r@ == header_text(shown as nat),
{
    let mut r: String = " pending approvals (".to_owned();
    r.append(u64_text(shown as u64).as_str());
    r.append(") ");
    r
}

/// The text of an event's age in seconds; an event of the future is new.
pub open spec fn age_shown(age: Option<i64>) -> Seq<char> {
    match age {
        Some(secs) => widgets::age_text(secs as int),
        None => "0s"@,
    }
}

/// The text of an age in seconds.
pub fn age_words(age: Option<i64>) -> (r: String)
    ensures
        r@ == age_shown(age),
{
    match age {
        Some(secs) => format_age(secs),
        None => "0s".to_owned(),
    }
}

/// A row of the queue: the entitlement, the scope, where the event came from
/// and how old it is. A name that is no grant's shows question marks.
pub open spec fn row_model(e: ApprovalModel, age: Option<i64>) -> Seq<SpanModel> {
    let (ent, scope, id) = match grants::name_parts(e.name) {
        Some(m) => (m.entitlement, m.scope.short_text(), m.scope_id),
        None => ("?"@, "?"@, "?"@),
    };
    let source = match e.source {
        Some(s) => s,
        None => "-"@,
    };
    seq![
        styled::plain(text::padded_right(text::truncated(ent, 24), 24) + "  "@),
        styled::span(scope + ":"@ + text::padded_right(id, 16) + "  "@, Tone::Dim),
        styled::span("("@ + source + ")  "@, Tone::Dim),
        styled::span(age_shown(age) + " ago"@, Tone::Dim),
    ]
}

/// A row of the queue.
pub fn row(event: &ApprovalEvent, age: Option<i64>) -> (r: Line)
    ensures
        r@ == row_model(event@, age),
{
    let (ent, scope, id): (&str, &str, &str) = match parse_grant_name(event.name.as_str()) {
        Some(p) => (p.entitlement, p.scope.short(), p.scope_id),
        None => ("?", "?", "?"),
    };
    let source: &str = match &event.source {
        Some(s) => s.as_str(),
        None => "-",
    };
    let mut name: String = pad_right(truncate(ent, 24).as_str(), 24);
    name.append("  ");
    let mut place: String = scope.to_owned();
    place.append(":");
    place.append(pad_right(id, 16).as_str());
    place.append("  ");
    let mut origin: String = "(".to_owned();
    origin.append(source);
    origin.append(")  ");
    let mut since: String = age_words(age);
    since.append(" ago");
    let r = Line::new().with(name, Tone::Plain).with(place, Tone::Dim).with(
        origin,
        Tone::Dim,
    ).with(since, Tone::Dim);
    assert(r@ =~= row_model(event@, age));
    r
}

/// The age of an event in seconds, `None` for one of the future.
pub open spec fn age_at(received_at: SystemTime, now: SystemTime) -> Option<i64> {
    match schema::secs_between(received_at, now) {
        Some(secs) => Some(schema::stamp(Some(secs))),
        None => None,
    }
}

/// The age of what came at a moment, in seconds.
pub fn age_in_secs(at: SystemTime, now: &SystemTime) -> (r: Option<i64>)
    ensures
        r == age_at(at, *now),
{
    match secs_since(now, at) {
        Some(secs) => Some(unix_stamp(Some(secs))),
        None => None,
    }
}

/// The row of a queued event at a time.
pub open spec fn queued_row(q: QueuedEvent, now: SystemTime) -> Seq<SpanModel> {
    row_model(q.event@, age_at(q.received_at, now))
}

/// The rows of the queue at a time.
pub fn rows(queue: &Queue, now: &SystemTime) -> (r: Vec<Line>)
    ensures
        r@.len() == queue@.len(),
        forall|i: int| 0 <= i < r@.len() ==> (#[trigger] r@[i])@ == queued_row(queue@[i], *now),
{
    let mut out: Vec<Line> = Vec::new();
    let mut i: usize = 0;
    while i < queue.len()
        invariant
            i <= queue@.len(),
            out@.len() == i,
            forall|k: int| 0 <= k < i ==> (#[trigger] out@[k])@ == queued_row(queue@[k], *now),
        decreases queue@.len() - i,
    {
        let q: &QueuedEvent = &queue[i];
        let line = row(&q.event, age_in_secs(q.received_at, now));
        out.push(line);
        i += 1;
    }
    out
}

/// The text below the list.
pub const FOOTER: &'static str = "j/k navigate | g/G top/bottom | d/x drop | esc/q back";

/// The cursor stays on a row that is shown, whatever the key.
pub proof fn law_cursor_stays_on_a_row(cursor: nat, shown: nat, action: QueueAction)
    requires
        cursor < shown,
    ensures
        moved(cursor, shown, action) < shown,
{
}

/// Preparing puts the cursor on a row.
pub proof fn law_prepared_cursor_is_on_a_row(cursor: nat, shown: nat)
    requires
        shown > 0,
    ensures
        clamped(cursor, shown) < shown,
        cursor < shown ==> clamped(cursor, shown) == cursor,
{
}

/// The keys of the queue.
pub proof fn law_keys_of_the_queue(ctrl: bool)
    ensures
        decided(KeyEvent { code: KeyCode::Char('j'), ctrl }) == Some(QueueAction::Down),
        decided(KeyEvent { code: KeyCode::Down, ctrl }) == Some(QueueAction::Down),
        decided(KeyEvent { code: KeyCode::Char('k'), ctrl }) == Some(QueueAction::Up),
        decided(KeyEvent { code: KeyCode::Up, ctrl }) == Some(QueueAction::Up),
        decided(KeyEvent { code: KeyCode::Char('g'), ctrl }) == Some(QueueAction::Top),
        decided(KeyEvent { code: KeyCode::Char('G'), ctrl }) == Some(QueueAction::Bottom),
        decided(KeyEvent { code: KeyCode::Char('d'), ctrl }) == Some(QueueAction::Drop),
        decided(KeyEvent { code: KeyCode::Char('x'), ctrl }) == Some(QueueAction::Drop),
        decided(KeyEvent { code: KeyCode::Esc, ctrl }) == Some(QueueAction::Back),
        decided(KeyEvent { code: KeyCode::Char('q'), ctrl }) == Some(QueueAction::Back),
        decided(KeyEvent { code: KeyCode::Char('c'), ctrl: true }) == Some(QueueAction::Quit),
        decided(KeyEvent { code: KeyCode::Char('c'), ctrl: false }) is None,
        decided(KeyEvent { code: KeyCode::Enter, ctrl }) is None,
{
}

/// A letter without a meaning does nothing.
pub proof fn law_other_letters_do_nothing(c: char, ctrl: bool)
    requires
        c != 'j' && c != 'k' && c != 'g' && c != 'G' && c != 'd' && c != 'x' && c != 'q' && c != 'c',
    ensures
        decided(KeyEvent { code: KeyCode::Char(c), ctrl }) is None,
{
}

/// The cursor moves by one row within the rows, or to the first or last one; it
/// stays where the screen is left or an event is dropped.
pub proof fn law_cursor_moves(cursor: nat, shown: nat)
    requires
        cursor < shown,
    ensures
        cursor > 0 ==> moved(cursor, shown, QueueAction::Up) == cursor - 1,
        moved(0, shown, QueueAction::Up) == 0,
        cursor + 1 < shown ==> moved(cursor, shown, QueueAction::Down) == cursor + 1,
        cursor + 1 == shown ==> moved(cursor, shown, QueueAction::Down) == cursor,
        moved(cursor, shown, QueueAction::Top) == 0,
        moved(cursor, shown, QueueAction::Bottom) == shown - 1,
        moved(cursor, shown, QueueAction::Drop) == cursor,
        moved(cursor, shown, QueueAction::Back) == cursor,
        cursor >= shown ==> clamped(cursor, shown) == shown - 1,
{
}

/// Only going back and quitting leave the screen, each in its own way.
pub proof fn law_ways_out_of_the_queue(action: QueueAction)
    ensures
        exit_of(action) == Some(QueueExit::Back) <==> action == QueueAction::Back,
        exit_of(action) == Some(QueueExit::Quit) <==> action == QueueAction::Quit,
{
}

/// A row shows the entitlement, the scope, the origin and the age of an event.
pub proof fn law_row_shows_the_event(
    e: ApprovalModel,
    age: i64,
    scope: Scope,
    scope_id: Seq<char>,
    location: Seq<char>,
    entitlement: Seq<char>,
    grant: Seq<char>,
)
    requires
        grants::is_segment(scope_id),
        grants::is_segment(location),
        grants::is_segment(entitlement),
        grants::is_segment(grant),
        e.name == grants::grant_name(scope, scope_id, location, entitlement, grant),
    ensures
        ({
            let r = row_model(e, Some(age));
            &&& r.len() == 4
            &&& entitlement.len() <= 24 ==> r[0].text.take(entitlement.len() as int) == entitlement
            &&& text::has_text(r[1].text, scope.short_text() + ":"@ + scope_id)
            &&& e.source matches Some(s) ==> r[2].text == "("@ + s + ")  "@
            &&& e.source is None ==> r[2].text == "("@ + "-"@ + ")  "@
            &&& r[3].text == widgets::age_text(age as int) + " ago"@
        }),
        row_model(e, None)[3].text == "0s"@ + " ago"@,
{
    grants::law_built_names_parse(scope, scope_id, location, entitlement, grant);
    let r = row_model(e, Some(age));
    text::law_padding(text::truncated(entitlement, 24), 24);
    text::law_padding(scope_id, 16);
    if entitlement.len() <= 24 {
        let p = text::padded_right(entitlement, 24);
        assert(r[0].text.take(entitlement.len() as int) =~= p.take(entitlement.len() as int));
    }
    let q = text::padded_right(scope_id, 16);
    let tail = q.skip(scope_id.len() as int) + "  "@;
    assert(q =~= scope_id + q.skip(scope_id.len() as int)) by {
        assert(q.take(scope_id.len() as int) == scope_id);
    }
    text::law_occurrence(Seq::empty(), scope.short_text() + ":"@ + scope_id, tail);
    assert(r[1].text =~= Seq::<char>::empty() + (scope.short_text() + ":"@ + scope_id) + tail);
}

/// The header counts the rows.
pub proof fn law_header_counts(shown: nat)
    ensures
        text::has_text(header_text(shown), "("@ + numbers::decimal(shown) + ")"@),
{
    reveal_strlit(" pending approvals (");
    reveal_strlit(" pending approvals ");
    reveal_strlit("(");
    reveal_strlit(") ");
    reveal_strlit(")");
    reveal_strlit(" ");
    assert(" pending approvals ("@ =~= " pending approvals "@ + "("@);
    assert(") "@ =~= ")"@ + " "@);
    let n = numbers::decimal(shown);
    text::law_occurrence(" pending approvals "@, "("@ + n + ")"@, " "@);
    assert(header_text(shown) =~= " pending approvals "@ + ("("@ + n + ")"@) + " "@);
}

/// An age that is not known is shown as none at all.
pub proof fn law_ages_are_shown(secs: i64)
    ensures
        age_shown(Some(secs)) == widgets::age_text(secs as int),
        age_shown(None) == "0s"@,
        secs < 0 ==> age_shown(Some(secs)) == "now"@,
        0 <= secs < 60 ==> age_shown(Some(secs)) == numbers::decimal(secs as nat) + "s"@,
{
    reveal_strlit("s");
    assert(numbers::decimal(secs as nat) + "s"@ =~= numbers::decimal(secs as nat).push('s'));
}

} // verus!
