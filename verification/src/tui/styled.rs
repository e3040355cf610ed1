//! Text with a tone, and where it stands: what a screen shows, before it is
//! drawn.
use vstd::prelude::*;
use vstd::string::*;
use crate::text;

verus! {

/// How a piece of text is drawn.
#[derive(Debug, Clone, Copy, PartialEq, Eq, Structural)]
pub enum Tone {
    Plain,
    Dim,
    Bold,
    Cyan,
    CyanBold,
    GreenBold,
    Red,
    RedBold,
    Yellow,
    YellowBold,
}

/// A piece of text with a tone.
#[derive(Debug)]
pub struct Span {
    pub text: String,
    pub tone: Tone,
}

/// A piece of text with a tone, as characters.
pub ghost struct SpanModel {
    pub text: Seq<char>,
    pub tone: Tone,
}

impl View for Span {
    type V = SpanModel;

    open spec fn view(&self) -> SpanModel {
        SpanModel { text: self.text@, tone: self.tone }
    }
}

/// A line.
#[derive(Debug)]
pub struct Line {
    pub spans: Vec<Span>,
}

impl View for Line {
    type V = Seq<SpanModel>;

    open spec fn view(&self) -> Seq<SpanModel> {
        Seq::new(self.spans@.len(), |i: int| self.spans@[i]@)
    }
}

/// Lines, as characters.
pub open spec fn line_models(v: Seq<Line>) -> Seq<Seq<SpanModel>> {
    Seq::new(v.len(), |i: int| v[i]@)
}

/// A piece of text with a tone.
pub open spec fn span(text: Seq<char>, tone: Tone) -> SpanModel {
    SpanModel { text, tone }
}

/// A plain piece of text.
pub open spec fn plain(text: Seq<char>) -> SpanModel {
    SpanModel { text, tone: Tone::Plain }
}

impl Line {
    /// An empty line.
    pub fn new() -> (r: Self)
        ensures
            r@ == Seq::<SpanModel>::empty(),
    {
        let r = Line { spans: Vec::new() };
        assert(r@ =~= Seq::<SpanModel>::empty());
        r
    }

    /// A line of one piece.
    pub fn of(text: String, tone: Tone) -> (r: Self)
        ensures
            r@ == seq![span(text@, tone)],
            r.spans@.len() == 1,
            r.spans@[0].text@ == text@,
            r.spans@[0].tone == tone,
    {
        let ghost t = text@;
        let mut spans: Vec<Span> = Vec::new();
        spans.push(Span { text, tone });
        let r = Line { spans };
        assert(r@ =~= seq![span(t, tone)]);
        r
    }

    /// The line with a piece added at its end.
    pub fn with(self, text: String, tone: Tone) -> (r: Self)
        ensures
            r@ == self@.push(span(text@, tone)),
            r.spans@.len() == self.spans@.len() + 1,
            r.spans@.last().text@ == text@,
            r.spans@.last().tone == tone,
            r.spans@.drop_last() == self.spans@,
    {
        let ghost before = self@;
        let ghost t = text@;
        let mut spans: Vec<Span> = self.spans;
        spans.push(Span { text, tone });
        let r = Line { spans };
        assert(r@ =~= before.push(span(t, tone)));
        assert(r.spans@.drop_last() =~= self.spans@);
        r
    }
}

/// A part of the screen.
#[derive(Debug, Clone, Copy, PartialEq, Eq, Structural)]
pub struct Area {
    pub x: u16,
    pub y: u16,
    pub width: u16,
    pub height: u16,
}

impl Area {
    /// The area ends within the coordinates there are.
    pub open spec fn wf(self) -> bool {
        self.x + self.width <= u16::MAX && self.y + self.height <= u16::MAX
    }
}

/// The smaller of two numbers.
pub open spec fn least(a: int, b: int) -> int {
    if a <= b {
        a
    } else {
        b
    }
}

/// The larger of two numbers.
pub open spec fn most(a: int, b: int) -> int {
    if a >= b {
        a
    } else {
        b
    }
}

/// `a` less `b`, but not less than nothing.
pub open spec fn less(a: int, b: int) -> int {
    most(a - b, 0)
}

/// A box of a width and a height in the middle of an area. One that is larger
/// than the area begins where the area does.
pub open spec fn centered_in(area: Area, width: u16, height: u16) -> Area {
    Area {
        x: (area.x + less(area.width as int, width as int) / 2) as u16,
        y: (area.y + less(area.height as int, height as int) / 2) as u16,
        width,
        height,
    }
}

/// Centers a box in an area.
pub fn centered(area: Area, width: u16, height: u16) -> (r: Area)
    requires
        area.wf(),
    ensures
        r == centered_in(area, width, height),
{
    Area {
        x: area.x + area.width.saturating_sub(width) / 2,
        y: area.y + area.height.saturating_sub(height) / 2,
        width,
        height,
    }
}

/// A box that fits into an area, centered, stays in it.
pub proof fn law_centered_stays_inside(area: Area, width: u16, height: u16)
    requires
        area.wf(),
        width <= area.width,
        height <= area.height,
    ensures
        ({
            let b = centered_in(area, width, height);
            &&& area.x <= b.x && b.x + b.width <= area.x + area.width
            &&& area.y <= b.y && b.y + b.height <= area.y + area.height
        }),
{
}

/// A centered box leaves as much room on one side as on the other, up to one
/// cell, and has the size that was asked for.
pub proof fn law_centered_is_in_the_middle(area: Area, width: u16, height: u16)
    requires
        area.wf(),
        width <= area.width,
        height <= area.height,
    ensures
        ({
            let b = centered_in(area, width, height);
            let left = b.x - area.x;
            let right = area.x + area.width - (b.x + b.width);
            let above = b.y - area.y;
            let below = area.y + area.height - (b.y + b.height);
            &&& b.width == width && b.height == height
            &&& left <= right <= left + 1
            &&& above <= below <= above + 1
        }),
{
}

/// The smaller, the larger and the difference of two numbers.
pub proof fn law_bounds(a: int, b: int)
    ensures
        least(a, b) <= a && least(a, b) <= b && (least(a, b) == a || least(a, b) == b),
        most(a, b) >= a && most(a, b) >= b && (most(a, b) == a || most(a, b) == b),
        a >= b ==> less(a, b) == a - b,
        a < b ==> less(a, b) == 0,
{
}

/// A piece of text is its text in its tone.
pub proof fn law_pieces_keep_their_text(piece: Span, text: Seq<char>, tone: Tone)
    ensures
        piece@.text == piece.text@,
        piece@.tone == piece.tone,
        span(text, tone).text == text,
        span(text, tone).tone == tone,
        plain(text).text == text,
        plain(text).tone == Tone::Plain,
{
}

} // verus!
