//! Walking through a job: where each line moves the head, which moves burn, and
//! what area they cover.
//!
//! Lines are read by `gcode-nom`.  Sums and arcs need floating-point arithmetic,
//! which is left to the caller: a [`Tracer`] asks for what it needs and takes the
//! answers, and the results below are computed from the lines so traced.
use vstd::prelude::*;

use gcode_nom::arc::{ArcVal, Form};
use gcode_nom::command::Command;
use gcode_nom::params::head::PosVal;

use crate::binary64::Real;
use crate::text;

verus! {

// ── Lines as `gcode-nom` reads them ───────────────────────────────────────────

/// What kind of line this is.
#[derive(Debug, Clone, Copy, PartialEq, Eq, Structural)]
pub enum Kind {
    /// A rapid linear move, with the laser off.
    Rapid,
    /// A cutting linear move.
    Cut,
    /// A clockwise arc about a centre.
    Clockwise,
    /// A counter-clockwise arc about a centre.
    CounterClockwise,
    /// Coordinates are absolute from here on.
    Absolute,
    /// Coordinates are relative from here on.
    Relative,
    /// Any other line.
    Other,
    /// A line that could not be read.
    Unreadable,
}

/// A word of a command; the words that do not matter here are not told apart.
/// A value is the bit pattern of a binary64 number.
#[derive(Debug, Clone, Copy, PartialEq, Eq, Structural)]
pub enum Word {
    X(u64),
    Y(u64),
    I(u64),
    J(u64),
    S(u64),
    Other,
}

impl Kind {
    pub open spec fn is_linear(self) -> bool {
        self is Rapid || self is Cut
    }

    pub open spec fn is_arc(self) -> bool {
        self is Clockwise || self is CounterClockwise
    }
}

/// The command that `gcode-nom` reads on a line: its kind and, where it moves
/// the head, its words.
pub uninterp spec fn reading(line: Seq<char>) -> (Kind, Set<Word>);

/// `gcode_nom::command::Command::parse_line` reads one line of G-code; this is
/// the kind of the command it finds.  What it finds depends on the line alone.
#[verifier::external_body]
fn kind_of(line: &str) -> (r: Kind)
    ensures
        r == reading(line@).0,
{
    match Command::parse_line(line) {
        Ok((_, Command::G0(_))) => Kind::Rapid,
        Ok((_, Command::G1(_))) => Kind::Cut,
        Ok((_, Command::G2(Form::IJ(_)))) => Kind::Clockwise,
        Ok((_, Command::G3(Form::IJ(_)))) => Kind::CounterClockwise,
        Ok((_, Command::G90)) => Kind::Absolute,
        Ok((_, Command::G91)) => Kind::Relative,
        Ok(_) => Kind::Other,
        Err(_) => Kind::Unreadable,
    }
}

/// `gcode_nom::command::Command::parse_line` holds the words of a linear move in
/// a hash set; a line of another kind has no such words.  Which words these are
/// depends on the line alone; the order in which they come out does not, and is
/// left open.
#[verifier::external_body]
fn linear_words(line: &str) -> (r: Vec<Word>)
    ensures
        r@.to_set() == (if reading(line@).0.is_linear() {
            reading(line@).1
        } else {
            Set::empty()
        }),
{
    match Command::parse_line(line) {
        Ok((_, Command::G0(words) | Command::G1(words))) => words.iter().map(|w| match w {
            PosVal::X(v) => Word::X(v.to_bits()),
            PosVal::Y(v) => Word::Y(v.to_bits()),
            PosVal::S(v) => Word::S(v.to_bits()),
            _ => Word::Other,
        }).collect(),
        _ => Vec::new(),
    }
}

/// `gcode_nom::command::Command::parse_line` holds the words of an arc in a hash
/// set; a line of another kind has no such words.  Which words these are depends
/// on the line alone; the order in which they come out does not, and is left
/// open.
#[verifier::external_body]
fn arc_words(line: &str) -> (r: Vec<Word>)
    ensures
        r@.to_set() == (if reading(line@).0.is_arc() {
            reading(line@).1
        } else {
            Set::empty()
        }),
{
    match Command::parse_line(line) {
        Ok((_, Command::G2(Form::IJ(ws)) | Command::G3(Form::IJ(ws)))) => ws.iter().map(|w| match w {
            ArcVal::X(v) => Word::X(v.to_bits()),
            ArcVal::Y(v) => Word::Y(v.to_bits()),
            ArcVal::I(v) => Word::I(v.to_bits()),
            ArcVal::J(v) => Word::J(v.to_bits()),
            ArcVal::S(v) => Word::S(v.to_bits()),
            _ => Word::Other,
        }).collect(),
        _ => Vec::new(),
    }
}

// ── Words ─────────────────────────────────────────────────────────────────────

/// The value of the last X word.
pub open spec fn x_of(words: Seq<Word>) -> Option<Real>
    decreases words.len(),
{
    if words.len() == 0 {
        None
    } else {
        match words.last() {
            Word::X(bits) => Some(Real { bits }),
            _ => x_of(words.drop_last()),
        }
    }
}

/// The value of the last Y word.
pub open spec fn y_of(words: Seq<Word>) -> Option<Real>
    decreases words.len(),
{
    if words.len() == 0 {
        None
    } else {
        match words.last() {
            Word::Y(bits) => Some(Real { bits }),
            _ => y_of(words.drop_last()),
        }
    }
}

/// The value of the first S word.
pub open spec fn s_of(words: Seq<Word>) -> Option<Real>
    decreases words.len(),
{
    if words.len() == 0 {
        None
    } else {
        match words[0] {
            Word::S(bits) => Some(Real { bits }),
            _ => s_of(words.skip(1)),
        }
    }
}

/// The value of a word is one that the line holds, and a word that it holds has
/// a value.
pub proof fn word_values_come_from_the_words(words: Seq<Word>)
    ensures
        x_of(words) matches Some(v) ==> words.to_set().contains(Word::X(v.bits)),
        y_of(words) matches Some(v) ==> words.to_set().contains(Word::Y(v.bits)),
        s_of(words) matches Some(v) ==> words.to_set().contains(Word::S(v.bits)),
        x_of(words) is None <==> forall|b: u64| !words.to_set().contains(Word::X(b)),
        y_of(words) is None <==> forall|b: u64| !words.to_set().contains(Word::Y(b)),
        s_of(words) is None <==> forall|b: u64| !words.to_set().contains(Word::S(b)),
{
    lemma_x_of(words);
    lemma_y_of(words);
    lemma_s_of(words);
    assert forall|b: u64| words.to_set().contains(Word::X(b)) implies x_of(words) is Some by {
        let i = choose|i: int| 0 <= i < words.len() && words[i] == Word::X(b);
    }
    assert forall|b: u64| words.to_set().contains(Word::Y(b)) implies y_of(words) is Some by {
        let i = choose|i: int| 0 <= i < words.len() && words[i] == Word::Y(b);
    }
    assert forall|b: u64| words.to_set().contains(Word::S(b)) implies s_of(words) is Some by {
        let i = choose|i: int| 0 <= i < words.len() && words[i] == Word::S(b);
    }
    if let Some(v) = x_of(words) {
        assert(words.contains(Word::X(v.bits)));
        assert(words.to_set().contains(Word::X(v.bits)));
    }
    if let Some(v) = y_of(words) {
        assert(words.contains(Word::Y(v.bits)));
        assert(words.to_set().contains(Word::Y(v.bits)));
    }
    if let Some(v) = s_of(words) {
        assert(words.contains(Word::S(v.bits)));
        assert(words.to_set().contains(Word::S(v.bits)));
    }
}

proof fn lemma_x_of(words: Seq<Word>)
    ensures
        x_of(words) matches Some(v) ==> words.contains(Word::X(v.bits)),
        x_of(words) is None ==> forall|i: int|
            0 <= i < words.len() ==> !((#[trigger] words[i]) is X),
    decreases words.len(),
{
    if words.len() > 0 {
        lemma_x_of(words.drop_last());
        let n = words.len() - 1;
        assert(words[n] == words.last());
        if !(words.last() is X) {
            if let Some(v) = x_of(words) {
                let k = choose|k: int|
                    0 <= k < n && words.drop_last()[k] == Word::X(v.bits);
                assert(words[k] == Word::X(v.bits));
            } else {
                assert forall|i: int| 0 <= i < words.len() implies !((#[trigger] words[i]) is X) by {
                    if i < n {
                        assert(words.drop_last()[i] == words[i]);
                    }
                }
            }
        }
    }
}

proof fn lemma_y_of(words: Seq<Word>)
    ensures
        y_of(words) matches Some(v) ==> words.contains(Word::Y(v.bits)),
        y_of(words) is None ==> forall|i: int|
            0 <= i < words.len() ==> !((#[trigger] words[i]) is Y),
    decreases words.len(),
{
    if words.len() > 0 {
        lemma_y_of(words.drop_last());
        let n = words.len() - 1;
        assert(words[n] == words.last());
        if !(words.last() is Y) {
            if let Some(v) = y_of(words) {
                let k = choose|k: int|
                    0 <= k < n && words.drop_last()[k] == Word::Y(v.bits);
                assert(words[k] == Word::Y(v.bits));
            } else {
                assert forall|i: int| 0 <= i < words.len() implies !((#[trigger] words[i]) is Y) by {
                    if i < n {
                        assert(words.drop_last()[i] == words[i]);
                    }
                }
            }
        }
    }
}

proof fn lemma_s_of(words: Seq<Word>)
    ensures
        s_of(words) matches Some(v) ==> words.contains(Word::S(v.bits)),
        s_of(words) is None ==> forall|i: int|
            0 <= i < words.len() ==> !((#[trigger] words[i]) is S),
    decreases words.len(),
{
    if words.len() > 0 {
        let rest = words.skip(1);
        lemma_s_of(rest);
        if !(words[0] is S) {
            if let Some(v) = s_of(words) {
                let k = choose|k: int| 0 <= k < rest.len() && rest[k] == Word::S(v.bits);
                assert(words[k + 1] == Word::S(v.bits));
            } else {
                assert forall|i: int| 0 <= i < words.len() implies !((#[trigger] words[i]) is S) by {
                    if i > 0 {
                        assert(rest[i - 1] == words[i]);
                    }
                }
            }
        }
    }
}

fn find_x(words: &Vec<Word>) -> (r: Option<Real>)
    ensures
        r == x_of(words@),
{
    let mut i: usize = words.len();
    assert(words@.take(words@.len() as int) == words@);
    while i > 0
        invariant
            i <= words@.len(),
            x_of(words@) == x_of(words@.take(i as int)),
        decreases i,
    {
        assert(words@.take(i as int).drop_last() == words@.take(i - 1));
        match words[i - 1] {
            Word::X(bits) => {
                return Some(Real { bits });
            },
            _ => {},
        }
        i = i - 1;
    }
    None
}

fn find_y(words: &Vec<Word>) -> (r: Option<Real>)
    ensures
        r == y_of(words@),
{
    let mut i: usize = words.len();
    assert(words@.take(words@.len() as int) == words@);
    while i > 0
        invariant
            i <= words@.len(),
            y_of(words@) == y_of(words@.take(i as int)),
        decreases i,
    {
        assert(words@.take(i as int).drop_last() == words@.take(i - 1));
        match words[i - 1] {
            Word::Y(bits) => {
                return Some(Real { bits });
            },
            _ => {},
        }
        i = i - 1;
    }
    None
}

/// The S word among the words of a command.
fn extract_s_from_params(words: &Vec<Word>) -> (r: Option<Real>)
    ensures
        r == s_of(words@),
{
    let mut i: usize = 0;
    assert(words@.skip(0) == words@);
    while i < words.len()
        invariant
            i <= words@.len(),
            s_of(words@) == s_of(words@.skip(i as int)),
        decreases words@.len() - i,
    {
        assert(words@.skip(i as int).skip(1) == words@.skip(i + 1));
        match words[i] {
            Word::S(bits) => {
                return Some(Real { bits });
            },
            _ => {},
        }
        i = i + 1;
    }
    None
}

/// The longest prefix of digits, points and minus signs.
pub open spec fn number_prefix(s: Seq<char>) -> Seq<char>
    decreases s.len(),
{
    if s.len() > 0 && (text::is_digit(s[0]) || s[0] == '.' || s[0] == '-') {
        seq![s[0]] + number_prefix(s.skip(1))
    } else {
        seq![]
    }
}

/// The text of the number behind the first S of a line, in either case.
pub open spec fn s_text(line: Seq<char>) -> Option<Seq<char>> {
    let t = text::upper(line);
    let i = text::cut(t, 'S');
    if i < t.len() {
        Some(number_prefix(t.skip(i + 1)))
    } else {
        None
    }
}

/// The text of the number behind the first S of a line, in either case.
pub fn extract_s_word(line: &str) -> (r: Option<String>)
    ensures
        text::opt(r) == s_text(line@),
{
    let t = text::to_upper(line);
    match text::split_once(t.as_str(), 'S') {
        None => None,
        Some((_, rest)) => {
            let v = text::to_chars(rest.as_str());
            let mut i: usize = 0;
            assert(v@.skip(0) == v@);
            assert(v@.take(0) == Seq::<char>::empty());
            assert(Seq::<char>::empty() + number_prefix(v@) == number_prefix(v@));
            while i < v.len() && (('0' <= v[i] && v[i] <= '9') || v[i] == '.' || v[i] == '-')
                invariant
                    i <= v@.len(),
                    v@.take(i as int) + number_prefix(v@.skip(i as int)) == number_prefix(v@),
                decreases v@.len() - i,
            {
                let ghost rest = v@.skip(i as int);
                assert(rest.skip(1) == v@.skip(i + 1));
                assert(v@.take(i as int) + (seq![rest[0]] + number_prefix(v@.skip(i + 1)))
                    == v@.take(i + 1) + number_prefix(v@.skip(i + 1)));
                i = i + 1;
            }
            assert(v@.take(i as int) + Seq::<char>::empty() == v@.take(i as int));
            assert(v@.take(i as int) == v@.subrange(0, i as int));
            Some(text::string_of(&v, 0, i))
        },
    }
}

// ── Tracing ───────────────────────────────────────────────────────────────────

/// A coordinate that a line moves to.
#[derive(Debug, Clone, Copy, PartialEq, Eq, Structural)]
pub enum Coordinate {
    At(Real),
    /// The sum of the two numbers.
    Sum(Real, Real),
}

/// The coordinate that a move goes to.
pub open spec fn target(value: Option<Real>, current: Real, absolute: bool) -> Coordinate {
    match value {
        Some(v) => if absolute {
            Coordinate::At(v)
        } else {
            Coordinate::Sum(current, v)
        },
        None => Coordinate::At(current),
    }
}

fn target_of(value: Option<Real>, current: Real, absolute: bool) -> (r: Coordinate)
    ensures
        r == target(value, current, absolute),
{
    match value {
        Some(v) => if absolute {
            Coordinate::At(v)
        } else {
            Coordinate::Sum(current, v)
        },
        None => Coordinate::At(current),
    }
}

/// Where the head is and how coordinates count.
#[derive(Debug, Clone, Copy, PartialEq, Eq, Structural)]
pub struct Tracer {
    pub x: Real,
    pub y: Real,
    pub absolute: bool,
}

/// What a line needs to have computed.
#[derive(Debug)]
pub struct Ask {
    /// Whether the line has anything but white space.
    pub blank: bool,
    pub kind: Kind,
    /// Where a linear move goes.
    pub x: Coordinate,
    pub y: Coordinate,
    /// The words of the command; an arc is computed from them.
    pub words: Vec<Word>,
    /// The power that the command itself carries.
    pub s_own: Option<Real>,
    /// The text of the number behind the first S of the line.
    pub s_text: Option<String>,
}

/// An arc about a centre.
#[derive(Debug, Clone, Copy, PartialEq, Eq)]
pub struct ArcShape {
    pub center: (Real, Real),
    pub radius: Real,
    pub theta_start: Real,
    pub theta_end: Real,
}

/// What was computed for a line.
#[derive(Debug, Clone, Copy, PartialEq, Eq)]
pub struct Reply {
    /// Where the move ends.
    pub to: (Real, Real),
    /// The shape of an arc and its middle.
    pub arc: ArcShape,
    pub mid: (Real, Real),
    /// The number behind the first S of the line.
    pub s_raw: Option<Real>,
}

/// A move.
#[derive(Debug, Clone, Copy, PartialEq, Eq)]
pub enum Segment {
    /// A rapid linear move.
    Rapid { from: (Real, Real), to: (Real, Real) },
    /// A cutting linear move.
    Cut { from: (Real, Real), to: (Real, Real) },
    /// An arc.
    Arc {
        from: (Real, Real),
        shape: ArcShape,
        clockwise: bool,
        end: (Real, Real),
        mid: (Real, Real),
    },
}

/// What a line of a job does.
#[derive(Debug, Clone, Copy, PartialEq, Eq)]
pub struct TracedLine {
    pub motion: Option<Segment>,
    /// The power that the command itself carries.
    pub s_own: Option<Real>,
    /// The number behind the first S of the line.
    pub s_raw: Option<Real>,
}

impl Tracer {
    /// The start of a job: at the origin, with absolute coordinates.
    pub open spec fn start() -> Tracer {
        Tracer { x: Real::spec_zero(), y: Real::spec_zero(), absolute: true }
    }

    /// The start of a job: at the origin, with absolute coordinates.
    pub fn new() -> (r: Tracer)
        ensures
            r == Tracer::start(),
    {
        Tracer { x: Real::zero(), y: Real::zero(), absolute: true }
    }

    /// What a linear move with these words needs to have computed.
    pub open spec fn linear_target(self, words: Seq<Word>) -> (Coordinate, Coordinate) {
        (target(x_of(words), self.x, self.absolute), target(y_of(words), self.y, self.absolute))
    }

    /// The ask for a line, given the kind of its command and its words.
    pub open spec fn asks(self, ask: Ask, line: Seq<char>, kind: Kind, words: Seq<Word>) -> bool {
        let t = text::trimmed(line);
        if t.len() == 0 {
            ask.blank
        } else {
            &&& !ask.blank
            &&& ask.kind == kind
            &&& (ask.x, ask.y) == self.linear_target(words)
            &&& ask.words@ == words
            &&& ask.s_own == s_of(words)
            &&& text::opt(ask.s_text) == s_text(t)
        }
    }

    /// What a line needs to have computed, given how it reads.
    pub fn ask_about(&self, line: &str, kind: Kind, words: Vec<Word>) -> (r: Ask)
        ensures
            self.asks(r, line@, kind, words@),
    {
        let t = text::trim(line);
        Ask {
            blank: text::is_empty(t.as_str()),
            kind,
            x: target_of(find_x(&words), self.x, self.absolute),
            y: target_of(find_y(&words), self.y, self.absolute),
            s_own: extract_s_from_params(&words),
            s_text: extract_s_word(t.as_str()),
            words,
        }
    }

    /// What a line needs to have computed.
    pub fn ask(&self, line: &str) -> (r: Ask)
        ensures
            ({
                let (kind, found) = reading(text::trimmed(line@));
                exists|words: Seq<Word>|
                    words.to_set() == (if kind.is_linear() || kind.is_arc() {
                        found
                    } else {
                        Set::empty()
                    }) && #[trigger] self.asks(r, line@, kind, words)
            }),
    {
        let t = text::trim(line);
        let kind = kind_of(t.as_str());
        let words = match kind {
            Kind::Rapid | Kind::Cut => linear_words(t.as_str()),
            _ => arc_words(t.as_str()),
        };
        let ghost w = words@;
        let r = self.ask_about(line, kind, words);
        assert(self.asks(r, line@, kind, w));
        r
    }

    /// The tracer and the traced line after a line, given what was computed.
    pub open spec fn answered(self, ask: Ask, reply: Reply) -> (Tracer, Option<TracedLine>) {
        let from = (self.x, self.y);
        let moved = Tracer { x: reply.to.0, y: reply.to.1, ..self };
        let line = |motion: Option<Segment>|
            Some(TracedLine { motion, s_own: ask.s_own, s_raw: reply.s_raw });
        let arc = |clockwise: bool|
            Some(
                Segment::Arc { from, shape: reply.arc, clockwise, end: reply.to, mid: reply.mid },
            );
        if ask.blank {
            (self, None)
        } else {
            match ask.kind {
                Kind::Rapid => (moved, line(Some(Segment::Rapid { from, to: reply.to }))),
                Kind::Cut => (moved, line(Some(Segment::Cut { from, to: reply.to }))),
                Kind::Clockwise => (moved, line(arc(true))),
                Kind::CounterClockwise => (moved, line(arc(false))),
                Kind::Absolute => (Tracer { absolute: true, ..self }, line(None)),
                Kind::Relative => (Tracer { absolute: false, ..self }, line(None)),
                Kind::Other | Kind::Unreadable => (self, line(None)),
            }
        }
    }

    /// Take what was computed for a line; a blank line leaves no trace.
    pub fn answer(&mut self, ask: &Ask, reply: Reply) -> (r: Option<TracedLine>)
        ensures
            (*final(self), r) == old(self).answered(*ask, reply),
    {
        if ask.blank {
            return None;
        }
        let from = (self.x, self.y);
        let motion = match ask.kind {
            Kind::Rapid => Some(Segment::Rapid { from, to: reply.to }),
            Kind::Cut => Some(Segment::Cut { from, to: reply.to }),
            Kind::Clockwise => Some(
                Segment::Arc {
                    from,
                    shape: reply.arc,
                    clockwise: true,
                    end: reply.to,
                    mid: reply.mid,
                },
            ),
            Kind::CounterClockwise => Some(
                Segment::Arc {
                    from,
                    shape: reply.arc,
                    clockwise: false,
                    end: reply.to,
                    mid: reply.mid,
                },
            ),
            _ => None,
        };
        match ask.kind {
            Kind::Absolute => {
                self.absolute = true;
            },
            Kind::Relative => {
                self.absolute = false;
            },
            _ => {},
        }
        if motion.is_some() {
            self.x = reply.to.0;
            self.y = reply.to.1;
        }
        Some(TracedLine { motion, s_own: ask.s_own, s_raw: reply.s_raw })
    }
}

// ── Extents ───────────────────────────────────────────────────────────────────

/// The largest finite number.
pub open spec fn largest() -> Real {
    Real { bits: 0x7fef_ffff_ffff_ffff }
}

/// The least finite number.
pub open spec fn least() -> Real {
    Real { bits: 0xffef_ffff_ffff_ffff }
}

/// The lower bound of the numbers, at most the largest finite one.
pub open spec fn lowest(v: Seq<Real>) -> Real
    decreases v.len(),
{
    if v.len() == 0 {
        largest()
    } else {
        let m = lowest(v.drop_last());
        if v.last().below(m) {
            v.last()
        } else {
            m
        }
    }
}

/// The upper bound of the numbers, at least the least finite one.
pub open spec fn highest(v: Seq<Real>) -> Real
    decreases v.len(),
{
    if v.len() == 0 {
        least()
    } else {
        let m = highest(v.drop_last());
        if m.below(v.last()) {
            v.last()
        } else {
            m
        }
    }
}

pub open spec fn xs(points: Seq<(Real, Real)>) -> Seq<Real> {
    points.map_values(|p: (Real, Real)| p.0)
}

pub open spec fn ys(points: Seq<(Real, Real)>) -> Seq<Real> {
    points.map_values(|p: (Real, Real)| p.1)
}

/// Every number lies between the lowest and the highest, and the lowest is one
/// of the numbers unless none is below the largest finite number.
pub proof fn extents_bound_the_numbers(v: Seq<Real>, i: int)
    requires
        0 <= i < v.len(),
        !v[i].nan(),
    ensures
        lowest(v).upto(v[i]),
        v[i].upto(highest(v)),
        !lowest(v).nan(),
        !highest(v).nan(),
        lowest(v) == largest() || v.contains(lowest(v)),
        highest(v) == least() || v.contains(highest(v)),
    decreases v.len(),
{
    lemma_extents_are_numbers(v);
    lemma_extents_are_attained(v);
    if i < v.len() - 1 {
        assert(v.drop_last()[i] == v[i]);
        extents_bound_the_numbers(v.drop_last(), i);
    } else {
        lemma_extents_are_numbers(v.drop_last());
    }
}

proof fn lemma_extents_are_numbers(v: Seq<Real>)
    ensures
        !lowest(v).nan(),
        !highest(v).nan(),
    decreases v.len(),
{
    if v.len() > 0 {
        lemma_extents_are_numbers(v.drop_last());
    }
}

proof fn lemma_extents_are_attained(v: Seq<Real>)
    ensures
        lowest(v) == largest() || v.contains(lowest(v)),
        highest(v) == least() || v.contains(highest(v)),
    decreases v.len(),
{
    if v.len() > 0 {
        let w = v.drop_last();
        lemma_extents_are_attained(w);
        assert(v[v.len() - 1] == v.last());
        if w.contains(lowest(w)) {
            let k = choose|k: int| 0 <= k < w.len() && w[k] == lowest(w);
            assert(v[k] == lowest(w));
        }
        if w.contains(highest(w)) {
            let k = choose|k: int| 0 <= k < w.len() && w[k] == highest(w);
            assert(v[k] == highest(w));
        }
    }
}

/// An area with its sides along the axes.
#[derive(Debug, Clone, Copy, PartialEq, Eq)]
pub struct Extents {
    pub min: (Real, Real),
    pub max: (Real, Real),
}

/// The extents of a series of points.
pub open spec fn extents(points: Seq<(Real, Real)>) -> Extents {
    Extents {
        min: (lowest(xs(points)), lowest(ys(points))),
        max: (highest(xs(points)), highest(ys(points))),
    }
}

impl Extents {
    fn empty() -> (r: Extents)
        ensures
            r == extents(seq![]),
    {
        Extents {
            min: (Real { bits: 0x7fef_ffff_ffff_ffff }, Real { bits: 0x7fef_ffff_ffff_ffff }),
            max: (Real { bits: 0xffef_ffff_ffff_ffff }, Real { bits: 0xffef_ffff_ffff_ffff }),
        }
    }

    fn cover(&mut self, pt: (Real, Real), Ghost(points): Ghost<Seq<(Real, Real)>>)
        requires
            *old(self) == extents(points),
        ensures
            *final(self) == extents(points.push(pt)),
    {
        proof {
            let more = points.push(pt);
            assert(xs(more).drop_last() == xs(points));
            assert(ys(more).drop_last() == ys(points));
        }
        if pt.0.less(self.min.0) {
            self.min.0 = pt.0;
        }
        if pt.1.less(self.min.1) {
            self.min.1 = pt.1;
        }
        if self.max.0.less(pt.0) {
            self.max.0 = pt.0;
        }
        if self.max.1.less(pt.1) {
            self.max.1 = pt.1;
        }
    }
}

// ── The burnt area ────────────────────────────────────────────────────────────

/// A power that keeps the laser on.
pub open spec fn burns(power: Real) -> bool {
    Real::spec_zero().below(power)
}

/// The power in effect once a command's own S word counts.
pub open spec fn own_power(power: Real, line: TracedLine) -> Real {
    match line.s_own {
        Some(s) => s,
        None => power,
    }
}

/// The power in effect behind a line.
pub open spec fn next_power(power: Real, line: TracedLine) -> Real {
    match line.s_raw {
        Some(s) => s,
        None => own_power(power, line),
    }
}

/// The power in effect behind the lines; it stays until the next S word.
pub open spec fn power_after(lines: Seq<TracedLine>) -> Real
    decreases lines.len(),
{
    if lines.len() == 0 {
        Real::spec_zero()
    } else {
        next_power(power_after(lines.drop_last()), lines.last())
    }
}

/// The points that a line burns with this power: both ends of a cut, both ends
/// and the middle of an arc.  Rapid moves burn nothing.
pub open spec fn burnt_by(line: TracedLine, power: Real) -> Seq<(Real, Real)> {
    if burns(own_power(power, line)) {
        match line.motion {
            Some(Segment::Cut { from, to }) => seq![from, to],
            Some(Segment::Arc { from, end, mid, .. }) => seq![from, end, mid],
            _ => seq![],
        }
    } else {
        seq![]
    }
}

/// The points that the lines burn, in order.
pub open spec fn burnt(lines: Seq<TracedLine>) -> Seq<(Real, Real)>
    decreases lines.len(),
{
    if lines.len() == 0 {
        seq![]
    } else {
        burnt(lines.drop_last()) + burnt_by(lines.last(), power_after(lines.drop_last()))
    }
}

/// The area of all moves with the laser on, or nothing where there are none.
///
/// - Rapid moves never count.
/// - Cuts and arcs count when the power in effect is above zero, an S word of
///   their own being in effect.
/// - A power stays in effect until the next S word, on whatever line it stands.
pub fn laser_bounding_box(lines: &Vec<TracedLine>) -> (r: Option<Extents>)
    ensures
        r == (if burnt(lines@).len() == 0 {
            None
        } else {
            Some(extents(burnt(lines@)))
        }),
{
    let mut power = Real::zero();
    let mut area = Extents::empty();
    let mut found = false;
    let mut i: usize = 0;
    let ghost mut points: Seq<(Real, Real)> = seq![];
    assert(lines@.take(0) == Seq::<TracedLine>::empty());
    while i < lines.len()
        invariant
            i <= lines@.len(),
            points == burnt(lines@.take(i as int)),
            power == power_after(lines@.take(i as int)),
            area == extents(points),
            found == (points.len() > 0),
        decreases lines@.len() - i,
    {
        let line = lines[i];
        assert(lines@.take(i + 1).drop_last() == lines@.take(i as int));
        let ghost before = points;
        let ghost held = power;
        match line.s_own {
            Some(s) => {
                power = s;
            },
            None => {},
        }
        if Real::zero().less(power) {
            match line.motion {
                Some(Segment::Cut { from, to }) => {
                    area.cover(from, Ghost(points));
                    area.cover(to, Ghost(points.push(from)));
                    found = true;
                    proof {
                        points = points.push(from).push(to);
                        assert(points == before + seq![from, to]);
                    }
                },
                Some(Segment::Arc { from, end, mid, .. }) => {
                    area.cover(from, Ghost(points));
                    area.cover(end, Ghost(points.push(from)));
                    area.cover(mid, Ghost(points.push(from).push(end)));
                    found = true;
                    proof {
                        points = points.push(from).push(end).push(mid);
                        assert(points == before + seq![from, end, mid]);
                    }
                },
                _ => {
                    assert(before + Seq::<(Real, Real)>::empty() == before);
                },
            }
        } else {
            assert(before + Seq::<(Real, Real)>::empty() == before);
        }
        assert(points == before + burnt_by(line, held));
        match line.s_raw {
            Some(s) => {
                power = s;
            },
            None => {},
        }
        i = i + 1;
    }
    assert(lines@.take(i as int) == lines@);
    if found {
        Some(area)
    } else {
        None
    }
}

// ── All moves ─────────────────────────────────────────────────────────────────

/// The moves among the lines.
pub open spec fn moves(lines: Seq<TracedLine>) -> Seq<Segment>
    decreases lines.len(),
{
    if lines.len() == 0 {
        seq![]
    } else {
        match lines.last().motion {
            Some(m) => moves(lines.drop_last()).push(m),
            None => moves(lines.drop_last()),
        }
    }
}

/// The points that a move reaches: its end, and for an arc its middle.
pub open spec fn reached_by(m: Option<Segment>) -> Seq<(Real, Real)> {
    match m {
        Some(Segment::Rapid { to, .. }) => seq![to],
        Some(Segment::Cut { to, .. }) => seq![to],
        Some(Segment::Arc { end, mid, .. }) => seq![end, mid],
        None => seq![],
    }
}

/// The origin and the points that the lines reach, in order.
pub open spec fn reached(lines: Seq<TracedLine>) -> Seq<(Real, Real)>
    decreases lines.len(),
{
    if lines.len() == 0 {
        seq![(Real::spec_zero(), Real::spec_zero())]
    } else {
        reached(lines.drop_last()) + reached_by(lines.last().motion)
    }
}

/// An area with its narrow sides widened: the far end of a side marked in
/// `narrow` becomes the number in `next`.
pub open spec fn widened(area: Extents, narrow: (bool, bool), next: (Real, Real)) -> Extents {
    Extents {
        min: area.min,
        max: (
            if narrow.0 {
                next.0
            } else {
                area.max.0
            },
            if narrow.1 {
                next.1
            } else {
                area.max.1
            },
        ),
    }
}

/// Give an area a width and a height: where a side is narrow, `next` is the
/// number one above its near end.
pub fn widen(area: Extents, narrow: (bool, bool), next: (Real, Real)) -> (r: Extents)
    ensures
        r == widened(area, narrow, next),
        r.min == area.min,
        r.max.0 == (if narrow.0 {
            next.0
        } else {
            area.max.0
        }),
        r.max.1 == (if narrow.1 {
            next.1
        } else {
            area.max.1
        }),
{
    Extents {
        min: area.min,
        max: (
            if narrow.0 {
                next.0
            } else {
                area.max.0
            },
            if narrow.1 {
                next.1
            } else {
                area.max.1
            },
        ),
    }
}

/// The area that a job reaches, the origin being part of it.
pub fn reached_area(lines: &Vec<TracedLine>) -> (r: Extents)
    ensures
        r == extents(reached(lines@)),
{
    gather(lines).1
}

/// The moves of a job and the area that it takes: the area that it reaches, with
/// its narrow sides widened.
pub fn collect_segments(
    lines: &Vec<TracedLine>,
    narrow: (bool, bool),
    next: (Real, Real),
) -> (r: (Vec<Segment>, Extents))
    ensures
        r.0@ == moves(lines@),
        r.1 == widened(extents(reached(lines@)), narrow, next),
{
    let (segments, area) = gather(lines);
    (segments, widen(area, narrow, next))
}

fn gather(lines: &Vec<TracedLine>) -> (r: (Vec<Segment>, Extents))
    ensures
        r.0@ == moves(lines@),
        r.1 == extents(reached(lines@)),
{
    let mut segments: Vec<Segment> = Vec::new();
    let mut area = Extents::empty();
    let origin = (Real::zero(), Real::zero());
    let ghost mut points: Seq<(Real, Real)> = seq![];
    area.cover(origin, Ghost(points));
    proof {
        points = points.push(origin);
        assert(points == seq![origin]);
    }
    let mut i: usize = 0;
    assert(lines@.take(0) == Seq::<TracedLine>::empty());
    while i < lines.len()
        invariant
            i <= lines@.len(),
            segments@ == moves(lines@.take(i as int)),
            points == reached(lines@.take(i as int)),
            area == extents(points),
        decreases lines@.len() - i,
    {
        assert(lines@.take(i + 1).drop_last() == lines@.take(i as int));
        let ghost before = points;
        match lines[i].motion {
            Some(m) => {
                segments.push(m);
                match m {
                    Segment::Rapid { to, .. } => {
                        area.cover(to, Ghost(points));
                        proof {
                            points = points.push(to);
                            assert(points == before + seq![to]);
                        }
                    },
                    Segment::Cut { to, .. } => {
                        area.cover(to, Ghost(points));
                        proof {
                            points = points.push(to);
                            assert(points == before + seq![to]);
                        }
                    },
                    Segment::Arc { end, mid, .. } => {
                        area.cover(end, Ghost(points));
                        area.cover(mid, Ghost(points.push(end)));
                        proof {
                            points = points.push(end).push(mid);
                            assert(points == before + seq![end, mid]);
                        }
                    },
                }
            },
            None => {
                assert(before + Seq::<(Real, Real)>::empty() == before);
            },
        }
        i = i + 1;
    }
    assert(lines@.take(i as int) == lines@);
    (segments, area)
}

// ── Laws ──────────────────────────────────────────────────────────────────────

/// A job without motion reaches the origin alone; widened by one, its area is
/// the unit square.
pub proof fn an_idle_job_takes_the_unit_square(one: Real)
    ensures
        moves(seq![]) == Seq::<Segment>::empty(),
        widened(extents(reached(seq![])), (true, true), (one, one)) == (Extents {
            min: (Real::spec_zero(), Real::spec_zero()),
            max: (one, one),
        }),
{
    let p = (Real::spec_zero(), Real::spec_zero());
    let v = reached(seq![]);
    assert(v == seq![p]);
    assert(xs(v) == seq![p.0] && ys(v) == seq![p.1]);
    assert(xs(v).drop_last() == Seq::<Real>::empty());
    assert(ys(v).drop_last() == Seq::<Real>::empty());
    reveal_with_fuel(lowest, 2);
    reveal_with_fuel(highest, 2);
}

/// An area whose narrow sides end above their beginning once widened has a width
/// and a height, and holds every point of numbers that the job reaches.
pub proof fn the_area_of_a_job_holds_its_points(
    lines: Seq<TracedLine>,
    narrow: (bool, bool),
    next: (Real, Real),
    i: int,
)
    requires
        0 <= i < reached(lines).len(),
        !reached(lines)[i].0.nan() && !reached(lines)[i].1.nan(),
        ({
            let area = extents(reached(lines));
            &&& if narrow.0 {
                area.max.0.upto(next.0) && area.min.0.below(next.0)
            } else {
                area.min.0.below(area.max.0)
            }
            &&& if narrow.1 {
                area.max.1.upto(next.1) && area.min.1.below(next.1)
            } else {
                area.min.1.below(area.max.1)
            }
        }),
    ensures
        ({
            let area = widened(extents(reached(lines)), narrow, next);
            let p = reached(lines)[i];
            &&& area.min.0.below(area.max.0) && area.min.1.below(area.max.1)
            &&& area.min.0.upto(p.0) && p.0.upto(area.max.0)
            &&& area.min.1.upto(p.1) && p.1.upto(area.max.1)
        }),
{
    let v = reached(lines);
    extents_bound_the_numbers(xs(v), i);
    extents_bound_the_numbers(ys(v), i);
}

/// A rapid move burns nothing, whatever the power.
pub proof fn rapid_moves_burn_nothing(line: TracedLine, power: Real)
    requires
        line.motion is Some ==> line.motion->Some_0 is Rapid,
    ensures
        burnt_by(line, power) == Seq::<(Real, Real)>::empty(),
{
}

/// A line without an S word leaves the power in effect as it was.
pub proof fn power_stays_until_the_next_s_word(lines: Seq<TracedLine>, line: TracedLine)
    requires
        line.s_own is None,
        line.s_raw is None,
    ensures
        power_after(lines.push(line)) == power_after(lines),
{
    assert(lines.push(line).drop_last() == lines);
}

/// A cut or arc that itself asks for no power, or less, burns nothing.
pub proof fn own_power_decides(line: TracedLine, power: Real, s: Real)
    requires
        line.s_own == Some(s),
        !burns(s),
    ensures
        burnt_by(line, power) == Seq::<(Real, Real)>::empty(),
{
}

/// The lines are one path from `start`: each move begins where the last ended.
pub open spec fn connected(lines: Seq<TracedLine>, start: (Real, Real)) -> bool
    decreases lines.len(),
{
    if lines.len() == 0 {
        true
    } else {
        connected(lines.drop_last(), start) && (match lines.last().motion {
            Some(Segment::Rapid { from, .. }) => from == end_of(lines.drop_last(), start),
            Some(Segment::Cut { from, .. }) => from == end_of(lines.drop_last(), start),
            Some(Segment::Arc { from, .. }) => from == end_of(lines.drop_last(), start),
            None => true,
        })
    }
}

/// Where the lines end.
pub open spec fn end_of(lines: Seq<TracedLine>, start: (Real, Real)) -> (Real, Real)
    decreases lines.len(),
{
    if lines.len() == 0 {
        start
    } else {
        match lines.last().motion {
            Some(Segment::Rapid { to, .. }) => to,
            Some(Segment::Cut { to, .. }) => to,
            Some(Segment::Arc { end, .. }) => end,
            None => end_of(lines.drop_last(), start),
        }
    }
}

/// A tracer that stands at the end of a connected path keeps it connected.
pub proof fn traced_lines_are_connected(
    lines: Seq<TracedLine>,
    tracer: Tracer,
    ask: Ask,
    reply: Reply,
)
    requires
        connected(lines, (Real::spec_zero(), Real::spec_zero())),
        (tracer.x, tracer.y) == end_of(lines, (Real::spec_zero(), Real::spec_zero())),
    ensures
        ({
            let origin = (Real::spec_zero(), Real::spec_zero());
            let (next, line) = tracer.answered(ask, reply);
            let more = match line {
                Some(l) => lines.push(l),
                None => lines,
            };
            connected(more, origin) && (next.x, next.y) == end_of(more, origin)
        }),
{
    let (next, line) = tracer.answered(ask, reply);
    if let Some(l) = line {
        assert(lines.push(l).drop_last() == lines);
    }
}

/// Every point that a connected path burns is the origin or one that it reaches.
pub proof fn burnt_points_are_reached(lines: Seq<TracedLine>, p: (Real, Real))
    requires
        connected(lines, (Real::spec_zero(), Real::spec_zero())),
        burnt(lines).contains(p),
    ensures
        reached(lines).contains(p),
    decreases lines.len(),
{
    if lines.len() > 0 {
        let rest = lines.drop_last();
        let here = burnt_by(lines.last(), power_after(rest));
        let more = reached_by(lines.last().motion);
        let k = choose|k: int| 0 <= k < burnt(lines).len() && burnt(lines)[k] == p;
        if k < burnt(rest).len() {
            assert(burnt(rest)[k] == p);
            burnt_points_are_reached(rest, p);
            let j = choose|j: int| 0 <= j < reached(rest).len() && reached(rest)[j] == p;
            assert(reached(lines)[j] == p);
        } else {
            assert(here[k - burnt(rest).len()] == p);
            lemma_end_is_reached(rest);
            let from = end_of(rest, (Real::spec_zero(), Real::spec_zero()));
            let n = reached(rest).len() as int;
            if p == from {
                let j = choose|j: int| 0 <= j < reached(rest).len() && reached(rest)[j] == from;
                assert(reached(lines)[j] == p);
            } else {
                assert(more.len() > 0);
                assert(reached(lines)[n] == more[0]);
                if more.len() > 1 {
                    assert(reached(lines)[n + 1] == more[1]);
                }
            }
        }
    }
}

proof fn lemma_end_is_reached(lines: Seq<TracedLine>)
    ensures
        reached(lines).contains(end_of(lines, (Real::spec_zero(), Real::spec_zero()))),
    decreases lines.len(),
{
    let origin = (Real::spec_zero(), Real::spec_zero());
    if lines.len() == 0 {
        assert(reached(lines)[0] == origin);
    } else {
        let rest = lines.drop_last();
        lemma_end_is_reached(rest);
        let n = reached(rest).len() as int;
        let more = reached_by(lines.last().motion);
        if more.len() > 0 {
            assert(reached(lines)[n] == more[0]);
        } else {
            let j = choose|j: int|
                0 <= j < reached(rest).len() && reached(rest)[j] == end_of(rest, origin);
            assert(reached(lines)[j] == end_of(rest, origin));
        }
    }
}

/// The points of a move that the laser passes: the ends of a cut, the ends and the
/// middle of an arc.
pub open spec fn passed(m: Option<Segment>, p: (Real, Real)) -> bool {
    match m {
        Some(Segment::Cut { from, to }) => p == from || p == to,
        Some(Segment::Arc { from, end, mid, .. }) => p == from || p == end || p == mid,
        _ => false,
    }
}

/// The power with which a line of a job moves: its own, or else the one in effect
/// behind the lines before it.
pub open spec fn moving_power(lines: Seq<TracedLine>, i: int) -> Real {
    if lines[i].s_own is Some {
        lines[i].s_own->0
    } else {
        power_after(lines.take(i))
    }
}

/// Every cut and every arc made at a power above zero is burnt, end points and
/// middle, however small the power.
pub proof fn every_power_above_zero_burns(lines: Seq<TracedLine>, i: int, p: (Real, Real))
    requires
        0 <= i < lines.len(),
        Real::spec_zero().below(moving_power(lines, i)),
        passed(lines[i].motion, p),
    ensures
        burnt(lines).contains(p),
    decreases lines.len(),
{
    let w = lines.drop_last();
    let more = burnt_by(lines.last(), power_after(w));
    if i == lines.len() - 1 {
        assert(lines.take(i) =~= w);
        if more[0] == p {
            assert(more.contains(p));
        } else if more[1] == p {
            assert(more.contains(p));
        } else {
            assert(more[2] == p);
            assert(more.contains(p));
        }
        let k = choose|k: int| 0 <= k < more.len() && more[k] == p;
        assert(burnt(lines)[burnt(w).len() + k] == p);
    } else {
        assert(w.take(i) =~= lines.take(i));
        assert(w[i] == lines[i]);
        every_power_above_zero_burns(w, i, p);
        let k = choose|k: int| 0 <= k < burnt(w).len() && burnt(w)[k] == p;
        assert(burnt(lines)[k] == p);
    }
}

/// Only cuts and arcs made at a power above zero are burnt: every burnt point is
/// one that such a move passes.
pub proof fn only_a_power_above_zero_burns(lines: Seq<TracedLine>, p: (Real, Real))
    requires
        burnt(lines).contains(p),
    ensures
        exists|i: int|
            0 <= i < lines.len() && #[trigger] passed(lines[i].motion, p)
                && Real::spec_zero().below(moving_power(lines, i)),
    decreases lines.len(),
{
    if lines.len() > 0 {
        let w = lines.drop_last();
        let more = burnt_by(lines.last(), power_after(w));
        let k = choose|k: int| 0 <= k < burnt(lines).len() && burnt(lines)[k] == p;
        if k < burnt(w).len() {
            assert(burnt(w)[k] == p);
            assert(burnt(w).contains(p));
            only_a_power_above_zero_burns(w, p);
            let i = choose|i: int|
                0 <= i < w.len() && #[trigger] passed(w[i].motion, p) && Real::spec_zero().below(
                    moving_power(w, i),
                );
            assert(w[i] == lines[i]);
            assert(w.take(i) =~= lines.take(i));
            assert(passed(lines[i].motion, p));
        } else {
            assert(more[k - burnt(w).len()] == p);
            let n = lines.len() - 1;
            assert(lines.take(n) =~= w);
            assert(lines[n] == lines.last());
            assert(passed(lines[n].motion, p));
        }
    }
}

/// A job has a burnt area just where some cut or arc is made at a power above
/// zero.
pub proof fn a_job_burns_where_the_laser_is_on(lines: Seq<TracedLine>)
    ensures
        burnt(lines).len() > 0 <==> exists|i: int|
            0 <= i < lines.len() && (#[trigger] lines[i]).motion is Some && !(
            lines[i].motion->0 is Rapid) && Real::spec_zero().below(moving_power(lines, i)),
{
    if burnt(lines).len() > 0 {
        let p = burnt(lines)[0];
        assert(burnt(lines).contains(p));
        only_a_power_above_zero_burns(lines, p);
        let i = choose|i: int|
            0 <= i < lines.len() && #[trigger] passed(lines[i].motion, p)
                && Real::spec_zero().below(moving_power(lines, i));
        assert(lines[i].motion is Some);
    }
    if exists|i: int|
        0 <= i < lines.len() && (#[trigger] lines[i]).motion is Some && !(
        lines[i].motion->0 is Rapid) && Real::spec_zero().below(moving_power(lines, i)) {
        let i = choose|i: int|
            0 <= i < lines.len() && (#[trigger] lines[i]).motion is Some && !(
            lines[i].motion->0 is Rapid) && Real::spec_zero().below(moving_power(lines, i));
        let p = match lines[i].motion {
            Some(Segment::Cut { from, .. }) => from,
            Some(Segment::Arc { from, .. }) => from,
            _ => (Real::spec_zero(), Real::spec_zero()),
        };
        assert(passed(lines[i].motion, p));
        every_power_above_zero_burns(lines, i, p);
    }
}

/// A job starts without power.  Behind a line the number behind its first S is in
/// effect, or else the power that its command carries, or else the one from
/// before.
pub proof fn the_last_s_word_sets_the_power(lines: Seq<TracedLine>, line: TracedLine)
    ensures
        power_after(seq![]) == (Real { bits: 0 }),
        line.s_raw matches Some(s) ==> power_after(lines.push(line)) == s,
        line.s_raw is None ==> (line.s_own matches Some(s) ==> power_after(lines.push(line)) == s),
        line.s_raw is None && line.s_own is None ==> power_after(lines.push(line)) == power_after(
            lines,
        ),
{
    assert(lines.push(line).drop_last() =~= lines);
}

/// The extents hold every point, and each side is that of some point unless it is
/// the bound of the finite numbers.
pub proof fn extents_hold_every_point(points: Seq<(Real, Real)>, i: int)
    requires
        0 <= i < points.len(),
        !points[i].0.nan(),
        !points[i].1.nan(),
    ensures
        ({
            let e = extents(points);
            let (a, b) = (Real { bits: 0x7fef_ffff_ffff_ffff }, Real { bits: 0xffef_ffff_ffff_ffff });
            &&& e.min.0.upto(points[i].0) && points[i].0.upto(e.max.0)
            &&& e.min.1.upto(points[i].1) && points[i].1.upto(e.max.1)
            &&& e.min.0 == a || exists|k: int| 0 <= k < points.len() && (#[trigger] points[k]).0 == e.min.0
            &&& e.min.1 == a || exists|k: int| 0 <= k < points.len() && (#[trigger] points[k]).1 == e.min.1
            &&& e.max.0 == b || exists|k: int| 0 <= k < points.len() && (#[trigger] points[k]).0 == e.max.0
            &&& e.max.1 == b || exists|k: int| 0 <= k < points.len() && (#[trigger] points[k]).1 == e.max.1
        }),
{
    let (vx, vy) = (xs(points), ys(points));
    assert(vx[i] == points[i].0 && vy[i] == points[i].1);
    extents_bound_the_numbers(vx, i);
    extents_bound_the_numbers(vy, i);
    if vx.contains(lowest(vx)) {
        let k = choose|k: int| 0 <= k < vx.len() && vx[k] == lowest(vx);
        assert(points[k].0 == lowest(vx));
    }
    if vx.contains(highest(vx)) {
        let k = choose|k: int| 0 <= k < vx.len() && vx[k] == highest(vx);
        assert(points[k].0 == highest(vx));
    }
    if vy.contains(lowest(vy)) {
        let k = choose|k: int| 0 <= k < vy.len() && vy[k] == lowest(vy);
        assert(points[k].1 == lowest(vy));
    }
    if vy.contains(highest(vy)) {
        let k = choose|k: int| 0 <= k < vy.len() && vy[k] == highest(vy);
        assert(points[k].1 == highest(vy));
    }
}

/// The burnt area holds both ends of every cut and arc made at a power above zero,
/// and the middle of the arc.
pub proof fn the_burnt_area_holds_what_is_burnt(lines: Seq<TracedLine>, i: int, p: (Real, Real))
    requires
        0 <= i < lines.len(),
        Real::spec_zero().below(moving_power(lines, i)),
        passed(lines[i].motion, p),
        !p.0.nan(),
        !p.1.nan(),
    ensures
        ({
            let e = extents(burnt(lines));
            &&& e.min.0.upto(p.0) && p.0.upto(e.max.0)
            &&& e.min.1.upto(p.1) && p.1.upto(e.max.1)
        }),
{
    every_power_above_zero_burns(lines, i, p);
    let k = choose|k: int| 0 <= k < burnt(lines).len() && burnt(lines)[k] == p;
    extents_hold_every_point(burnt(lines), k);
}

/// The moves of a job are those of its lines in order, and none else.
pub proof fn moves_are_those_of_the_lines(a: Seq<TracedLine>, line: TracedLine)
    ensures
        line.motion matches Some(m) ==> moves(a.push(line)) == moves(a).push(m),
        line.motion is None ==> moves(a.push(line)) == moves(a),
{
    assert(a.push(line).drop_last() =~= a);
}

/// The area of a job holds the origin and what every one of its moves reaches.
pub proof fn a_job_reaches_the_ends_of_its_moves(lines: Seq<TracedLine>, i: int)
    requires
        0 <= i < lines.len(),
    ensures
        reached(lines).contains((Real { bits: 0 }, Real { bits: 0 })),
        match lines[i].motion {
            Some(Segment::Rapid { to, .. }) => reached(lines).contains(to),
            Some(Segment::Cut { to, .. }) => reached(lines).contains(to),
            Some(Segment::Arc { end, mid, .. }) => reached(lines).contains(end) && reached(
                lines,
            ).contains(mid),
            None => true,
        },
    decreases lines.len(),
{
    lemma_reached_from_the_origin(lines);
    assert(reached(lines)[0] == (Real { bits: 0 }, Real { bits: 0 }));
    let w = lines.drop_last();
    let n = reached(w).len() as int;
    if i == lines.len() - 1 {
        match lines[i].motion {
            Some(Segment::Rapid { to, .. }) => {
                assert(reached(lines)[n] == to);
            },
            Some(Segment::Cut { to, .. }) => {
                assert(reached(lines)[n] == to);
            },
            Some(Segment::Arc { end, mid, .. }) => {
                assert(reached(lines)[n] == end);
                assert(reached(lines)[n + 1] == mid);
            },
            None => {},
        }
    } else {
        assert(w[i] == lines[i]);
        a_job_reaches_the_ends_of_its_moves(w, i);
        assert forall|p: (Real, Real)| reached(w).contains(p) implies reached(lines).contains(p) by {
            let k = choose|k: int| 0 <= k < n && reached(w)[k] == p;
            assert(reached(lines)[k] == p);
        }
    }
}

proof fn lemma_reached_from_the_origin(lines: Seq<TracedLine>)
    ensures
        reached(lines).len() > 0,
        reached(lines)[0] == (Real::spec_zero(), Real::spec_zero()),
    decreases lines.len(),
{
    if lines.len() > 0 {
        lemma_reached_from_the_origin(lines.drop_last());
    }
}

/// A side that is not narrow keeps its length, and the near ends stay.
pub proof fn only_narrow_sides_are_widened(area: Extents, narrow: (bool, bool), next: (Real, Real))
    ensures
        widened(area, narrow, next).min == area.min,
        !narrow.0 ==> widened(area, narrow, next).max.0 == area.max.0,
        !narrow.1 ==> widened(area, narrow, next).max.1 == area.max.1,
        narrow.0 ==> widened(area, narrow, next).max.0 == next.0,
        narrow.1 ==> widened(area, narrow, next).max.1 == next.1,
{
}

/// Of several words of a kind the last counts for a coordinate and the first for
/// the power; words of another kind do not matter.
pub proof fn the_last_coordinate_counts(words: Seq<Word>, w: Word)
    ensures
        w matches Word::X(bits) ==> x_of(words.push(w)) == Some(Real { bits }),
        !(w is X) ==> x_of(words.push(w)) == x_of(words),
        w matches Word::Y(bits) ==> y_of(words.push(w)) == Some(Real { bits }),
        !(w is Y) ==> y_of(words.push(w)) == y_of(words),
        w matches Word::S(bits) ==> s_of(seq![w] + words) == Some(Real { bits }),
        !(w is S) ==> s_of(seq![w] + words) == s_of(words),
{
    assert(words.push(w).drop_last() =~= words);
    assert((seq![w] + words).skip(1) =~= words);
}

/// A move with a coordinate of its own goes there, counted from the origin or
/// from where the head is; along an axis that it does not name the head stays.
pub proof fn coordinates_count_as_the_mode_says(
    t: Tracer,
    ask: Ask,
    line: Seq<char>,
    kind: Kind,
    words: Seq<Word>,
)
    requires
        t.asks(ask, line, kind, words),
        text::trimmed(line).len() > 0,
    ensures
        !ask.blank && ask.kind == kind && ask.words@ == words,
        words.len() > 0 ==> (words.last() matches Word::X(bits) ==> ask.x == (if t.absolute {
            Coordinate::At(Real { bits })
        } else {
            Coordinate::Sum(t.x, Real { bits })
        })),
        words.len() > 0 ==> (words.last() matches Word::Y(bits) ==> ask.y == (if t.absolute {
            Coordinate::At(Real { bits })
        } else {
            Coordinate::Sum(t.y, Real { bits })
        })),
        (forall|b: u64| !words.contains(Word::X(b))) ==> ask.x == Coordinate::At(t.x),
        (forall|b: u64| !words.contains(Word::Y(b))) ==> ask.y == Coordinate::At(t.y),
        (forall|b: u64| !words.contains(Word::S(b))) ==> ask.s_own is None,
        words.len() > 0 ==> (words[0] matches Word::S(bits) ==> ask.s_own == Some(Real { bits })),
{
    lemma_x_of(words);
    lemma_y_of(words);
    lemma_s_of(words);
}

/// A line moves the head where it was computed to go, from where it was, and only
/// a move does; only the two commands for it change how coordinates count.
pub proof fn a_line_moves_the_head_as_computed(t: Tracer, ask: Ask, reply: Reply)
    requires
        !ask.blank,
    ensures
        ({
            let (after, line) = t.answered(ask, reply);
            let moves = ask.kind is Rapid || ask.kind is Cut || ask.kind is Clockwise
                || ask.kind is CounterClockwise;
            &&& line is Some
            &&& line->0.s_own == ask.s_own && line->0.s_raw == reply.s_raw
            &&& line->0.motion is Some <==> moves
            &&& (after.x, after.y) == (if moves {
                reply.to
            } else {
                (t.x, t.y)
            })
            &&& after.absolute == (ask.kind is Absolute || (t.absolute && !(ask.kind is Relative)))
            &&& ask.kind is Rapid <==> (line->0.motion matches Some(Segment::Rapid { from, to })
                && from == (t.x, t.y) && to == reply.to)
            &&& ask.kind is Cut <==> (line->0.motion matches Some(Segment::Cut { from, to }) && from
                == (t.x, t.y) && to == reply.to)
            &&& ask.kind is Clockwise || ask.kind is CounterClockwise <==> (
            line->0.motion matches Some(Segment::Arc { from, shape, clockwise, end, mid }) && from
                == (t.x, t.y) && end == reply.to && mid == reply.mid && shape == reply.arc
                && clockwise == (ask.kind is Clockwise))
        }),
{
}

/// A job starts at the origin with absolute coordinates, and a blank line leaves
/// the tracer alone.
pub proof fn a_blank_line_does_nothing(t: Tracer, ask: Ask, reply: Reply)
    requires
        ask.blank,
    ensures
        t.answered(ask, reply) == (t, None::<TracedLine>),
        Tracer::start().absolute && Tracer::start().x.bits == 0 && Tracer::start().y.bits == 0,
{
}

/// The number behind an S is the longest run of digits, points and minus signs
/// that begins there.
pub proof fn a_number_is_as_long_as_it_can_be(s: Seq<char>)
    ensures
        ({
            let p = number_prefix(s);
            &&& p.is_prefix_of(s)
            &&& forall|i: int|
                0 <= i < p.len() ==> ('0' <= #[trigger] p[i] <= '9' || p[i] == '.' || p[i] == '-')
            &&& p.len() < s.len() ==> !('0' <= s[p.len() as int] <= '9' || s[p.len() as int] == '.'
                || s[p.len() as int] == '-')
        }),
    decreases s.len(),
{
    let p = number_prefix(s);
    if s.len() > 0 && (text::is_digit(s[0]) || s[0] == '.' || s[0] == '-') {
        let rest = s.skip(1);
        a_number_is_as_long_as_it_can_be(rest);
        let q = number_prefix(rest);
        assert(p =~= seq![s[0]] + q);
        assert forall|i: int| 0 <= i < p.len() implies p[i] == s[i] by {
            if i > 0 {
                assert(p[i] == q[i - 1]);
                assert(q[i - 1] == rest.subrange(0, q.len() as int)[i - 1]);
            }
        }
        assert forall|i: int| 0 <= i < p.len() implies ('0' <= #[trigger] p[i] <= '9' || p[i] == '.'
            || p[i] == '-') by {
            if i > 0 {
                assert(p[i] == q[i - 1]);
            }
        }
        assert(s.subrange(0, p.len() as int) =~= p);
        if p.len() < s.len() {
            assert(s[p.len() as int] == rest[q.len() as int]);
        }
    } else {
        assert(s.subrange(0, 0) =~= p);
    }
}

/// A line has an S word if it holds an S in either case.
pub proof fn an_s_word_begins_with_an_s(line: Seq<char>)
    ensures
        s_text(line) is Some <==> text::upper(line).contains('S'),
{
    text::lemma_cut(text::upper(line), 'S');
    let t = text::upper(line);
    if t.contains('S') {
        let k = choose|k: int| 0 <= k < t.len() && t[k] == 'S';
        assert(t[k] == 'S');
    }
    if text::cut(t, 'S') < t.len() {
        assert(t[text::cut(t, 'S') as int] == 'S');
    }
}

/// Moves along a line and along an arc are told apart, and no other line moves.
pub proof fn kinds_are_told_apart(kind: Kind)
    ensures
        !(kind.is_linear() && kind.is_arc()),
        kind is Rapid ==> kind.is_linear(),
        kind is Cut ==> kind.is_linear(),
        kind is Clockwise ==> kind.is_arc(),
        kind is CounterClockwise ==> kind.is_arc(),
        kind is Absolute || kind is Relative || kind is Other || kind is Unreadable
            ==> !kind.is_linear() && !kind.is_arc(),
{
}

} // verus!
