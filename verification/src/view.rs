//! Text for the screen: runs of one tone, in rows.
use vstd::prelude::*;

use crate::message::{Glyph, Message};
use crate::message;

verus! {

/// How a run of text stands out.
#[derive(Debug, Clone, Copy, PartialEq, Eq, Structural)]
pub enum Tone {
    Plain,
    /// Ordinary text, also bold.
    Title,
    TitleBold,
    /// Text that stands back, also bold.
    Info,
    InfoBold,
    /// Text that stands out, also bold.
    Accent,
    AccentBold,
    /// All is well, also bold.
    Good,
    GoodBold,
    /// Something needs care; also bold, or blinking.
    Warn,
    WarnBold,
    WarnBlink,
    /// Something is wrong, also bold.
    Bad,
    BadBold,
    /// Dark on the accent colour, also bold.
    Marked,
    MarkedBold,
    /// Dark on light, bold.
    Picked,
    /// Dark on the colour of text that stands back.
    Faded,
    /// Light on the colour of text that stands back.
    Button,
    /// Dark on the colour of what is wrong, bold.
    Alert,
    /// Accented and underlined.
    Heading,
    /// The name of the program.
    Brand,
}

/// A run of text in one tone.
#[derive(Debug)]
pub struct Span {
    pub text: Message,
    pub tone: Tone,
}

/// A run of text as glyphs, in one tone.
#[verifier::ext_equal]
pub struct Run {
    pub text: Seq<Glyph>,
    pub tone: Tone,
}

impl View for Span {
    type V = Run;

    open spec fn view(&self) -> Run {
        Run { text: self.text@, tone: self.tone }
    }
}

/// A row of runs.
#[derive(Debug)]
pub struct Row {
    pub spans: Vec<Span>,
}

impl View for Row {
    type V = Seq<Run>;

    open spec fn view(&self) -> Seq<Run> {
        self.spans@.map_values(|s: Span| s@)
    }
}

/// Rows from top to bottom.
#[derive(Debug)]
pub struct Rows {
    pub rows: Vec<Row>,
}

impl View for Rows {
    type V = Seq<Seq<Run>>;

    open spec fn view(&self) -> Seq<Seq<Run>> {
        self.rows@.map_values(|r: Row| r@)
    }
}

/// Characters in a tone.
pub open spec fn run(tone: Tone, s: Seq<char>) -> Run {
    Run { text: message::plain(s), tone }
}

/// A message in a tone.
pub open spec fn told(tone: Tone, text: Seq<Glyph>) -> Run {
    Run { text, tone }
}

/// A row of one run.
pub open spec fn single(tone: Tone, s: Seq<char>) -> Seq<Run> {
    seq![run(tone, s)]
}

impl Row {
    /// An empty row.
    pub fn new() -> (r: Row)
        ensures
            r@ == Seq::<Run>::empty(),
    {
        let r = Row { spans: Vec::new() };
        assert(r@ == Seq::<Run>::empty());
        r
    }

    /// A row of one run.
    pub fn of(tone: Tone, s: &str) -> (r: Row)
        ensures
            r@ == single(tone, s@),
    {
        Row::new().and(tone, s)
    }

    /// This row with a message at its end.
    pub fn and_message(self, tone: Tone, text: Message) -> (r: Row)
        ensures
            r@ == self@.push(told(tone, text@)),
    {
        let ghost before = self@;
        let mut spans = self.spans;
        let span = Span { text, tone };
        let ghost shown = span@;
        spans.push(span);
        let r = Row { spans };
        assert(r@ == before.push(shown));
        r
    }

    /// This row with characters at its end.
    pub fn and(self, tone: Tone, s: &str) -> (r: Row)
        ensures
            r@ == self@.push(run(tone, s@)),
    {
        self.and_message(tone, Message::text(s))
    }

    /// This row with another at its end.
    pub fn joined(self, other: Row) -> (r: Row)
        ensures
            r@ == self@ + other@,
    {
        let ghost a = self@;
        let ghost b = other@;
        let mut spans = self.spans;
        let mut more = other.spans;
        spans.append(&mut more);
        let r = Row { spans };
        assert(r@ == a + b);
        r
    }
}

impl Rows {
    /// No rows.
    pub fn new() -> (r: Rows)
        ensures
            r@ == Seq::<Seq<Run>>::empty(),
    {
        let r = Rows { rows: Vec::new() };
        assert(r@ == Seq::<Seq<Run>>::empty());
        r
    }

    /// These rows with another below.
    pub fn and(self, row: Row) -> (r: Rows)
        ensures
            r@ == self@.push(row@),
    {
        let ghost before = self@;
        let ghost shown = row@;
        let mut rows = self.rows;
        rows.push(row);
        let r = Rows { rows };
        assert(r@ == before.push(shown));
        r
    }

    /// These rows with an empty one below.
    pub fn and_gap(self) -> (r: Rows)
        ensures
            r@ == self@.push(seq![]),
    {
        self.and(Row::new())
    }

    /// These rows with a row of one run below.
    pub fn and_line(self, tone: Tone, s: &str) -> (r: Rows)
        ensures
            r@ == self@.push(single(tone, s@)),
    {
        self.and(Row::of(tone, s))
    }

    /// These rows with others below.
    pub fn joined(self, other: Rows) -> (r: Rows)
        ensures
            r@ == self@ + other@,
    {
        let ghost a = self@;
        let ghost b = other@;
        let mut rows = self.rows;
        let mut more = other.rows;
        rows.append(&mut more);
        let r = Rows { rows };
        assert(r@ == a + b);
        r
    }

    /// The number of rows.
    pub fn len(&self) -> (r: usize)
        ensures
            r == self@.len(),
    {
        self.rows.len()
    }
}

// ── Places on the screen ──────────────────────────────────────────────────────

/// A part of the screen.
#[derive(Debug, Clone, Copy, PartialEq, Eq, Structural)]
pub struct Area {
    pub x: u16,
    pub y: u16,
    pub width: u16,
    pub height: u16,
}

impl Area {
    /// Whether the right and lower edges have coordinates.
    pub open spec fn fits(self) -> bool {
        self.x + self.width <= u16::MAX && self.y + self.height <= u16::MAX
    }

    /// Whether this area is within another.
    pub open spec fn inside(self, outer: Area) -> bool {
        &&& outer.x <= self.x
        &&& outer.y <= self.y
        &&& self.x + self.width <= outer.x + outer.width
        &&& self.y + self.height <= outer.y + outer.height
    }
}

/// The smaller of two lengths.
pub open spec fn lesser(a: int, b: int) -> int {
    if a < b {
        a
    } else {
        b
    }
}

/// An area in the middle of another, as large as wanted or as there is room.
pub open spec fn middle(width: u16, height: u16, outer: Area) -> Area {
    let w = lesser(width as int, outer.width as int);
    let h = lesser(height as int, outer.height as int);
    Area {
        x: (outer.x + (outer.width - w) / 2) as u16,
        y: (outer.y + (outer.height - h) / 2) as u16,
        width: w as u16,
        height: h as u16,
    }
}

/// An area in the middle of another, as large as wanted or as there is room.
pub fn centred(width: u16, height: u16, outer: Area) -> (r: Area)
    requires
        outer.fits(),
    ensures
        r == middle(width, height, outer),
{
    let w: u16 = if width < outer.width {
        width
    } else {
        outer.width
    };
    let h: u16 = if height < outer.height {
        height
    } else {
        outer.height
    };
    Area {
        x: outer.x + (outer.width - w) / 2,
        y: outer.y + (outer.height - h) / 2,
        width: w,
        height: h,
    }
}

/// A centred area is within the other, and its margins differ by at most one.
pub proof fn centred_area_is_inside(width: u16, height: u16, outer: Area)
    requires
        outer.fits(),
    ensures
        middle(width, height, outer).inside(outer),
        ({
            let m = middle(width, height, outer);
            let left = m.x - outer.x;
            let right = outer.width - m.width - left;
            let above = m.y - outer.y;
            let below = outer.height - m.height - above;
            0 <= right - left <= 1 && 0 <= below - above <= 1
        }),
{
}

/// Which items of a list are shown, and where its scroll bar stands.
#[derive(Debug, Clone, Copy, PartialEq, Eq)]
pub struct Window {
    /// The first item shown, and the first behind those shown.
    pub start: usize,
    pub end: usize,
    /// The number of positions of the scroll bar and its position; nothing if
    /// all items have room.
    pub bar: Option<(usize, usize)>,
}

/// A centred area is as large as wanted where there is room, and else as large as
/// the other.
pub proof fn a_centred_area_has_the_wanted_size(width: u16, height: u16, outer: Area)
    ensures
        width <= outer.width ==> middle(width, height, outer).width == width,
        width > outer.width ==> middle(width, height, outer).width == outer.width,
        height <= outer.height ==> middle(width, height, outer).height == height,
        height > outer.height ==> middle(width, height, outer).height == outer.height,
{
}

/// The smaller of two lengths is one of them and no larger than either; a run
/// holds its text in its tone.
pub proof fn runs_hold_their_text(a: int, b: int, tone: Tone, s: Seq<char>, text: Seq<Glyph>)
    ensures
        lesser(a, b) <= a && lesser(a, b) <= b && (lesser(a, b) == a || lesser(a, b) == b),
        run(tone, s).tone == tone && run(tone, s).text == message::plain(s),
        told(tone, text).tone == tone && told(tone, text).text == text,
        single(tone, s).len() == 1 && single(tone, s)[0].text == message::plain(s) && single(
            tone,
            s,
        )[0].tone == tone,
{
}

} // verus!
