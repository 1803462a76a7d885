//! Path segments as operations of the machine.
use vstd::prelude::*;

use crate::binary64::Real;

verus! {

/// An operation of a program.  Coordinates, radii and feed rates are written
/// with a precision of a thousandth.
#[derive(Debug)]
pub enum Operation {
    /// Lengths are in millimetres.
    Millimetres,
    /// Coordinates are absolute.
    Absolute,
    /// What the machine does before and after a program.
    ProgramBegin,
    ProgramEnd,
    /// What turns the tool on and off.
    ToolOn,
    ToolOff,
    Comment(String),
    /// A rapid move, during which nothing is cut.
    Rapid { to: (Real, Real) },
    /// A cut along a line, with a power of its own if there is one.
    Line { to: (Real, Real), feedrate: Real, power: Option<Real> },
    /// A cut along less than half a circle.
    Arc { to: (Real, Real), radius: Real, feedrate: Real, clockwise: bool },
}

/// An operation, with texts by their characters.
pub enum Op {
    Millimetres,
    Absolute,
    ProgramBegin,
    ProgramEnd,
    ToolOn,
    ToolOff,
    Comment(Seq<char>),
    Rapid { to: (Real, Real) },
    Line { to: (Real, Real), feedrate: Real, power: Option<Real> },
    Arc { to: (Real, Real), radius: Real, feedrate: Real, clockwise: bool },
}

impl View for Operation {
    type V = Op;

    open spec fn view(&self) -> Op {
        match *self {
            Operation::Millimetres => Op::Millimetres,
            Operation::Absolute => Op::Absolute,
            Operation::ProgramBegin => Op::ProgramBegin,
            Operation::ProgramEnd => Op::ProgramEnd,
            Operation::ToolOn => Op::ToolOn,
            Operation::ToolOff => Op::ToolOff,
            Operation::Comment(c) => Op::Comment(c@),
            Operation::Rapid { to } => Op::Rapid { to },
            Operation::Line { to, feedrate, power } => Op::Line { to, feedrate, power },
            Operation::Arc { to, radius, feedrate, clockwise } => Op::Arc {
                to,
                radius,
                feedrate,
                clockwise,
            },
        }
    }
}

/// The operations of a program.
pub open spec fn ops(v: Seq<Operation>) -> Seq<Op> {
    v.map_values(|o: Operation| o@)
}

/// Part of a circle: one that is small enough, or two halves.
#[derive(Debug)]
pub enum Circle {
    Part { to: (Real, Real), radius: Real, sweep: bool },
    Halves(Box<Circle>, Box<Circle>),
}

/// A piece of a curve that was flattened.
#[derive(Debug)]
pub enum CurvePiece {
    Line((Real, Real)),
    Circle(Circle),
}

/// Draws path segments as operations of the machine.
#[derive(Debug)]
pub struct GCodeTurtle {
    /// Feed rate of the job in mm/min.
    pub feedrate: Real,
    /// Feed rate of the layer, if it has one.
    pub layer_feedrate: Option<Real>,
    /// Laser power of the layer, if it has one.
    pub layer_power: Option<Real>,
    pub program: Vec<Operation>,
}

/// A turtle, with its program by its operations.
pub struct Drawing {
    pub feedrate: Real,
    pub layer_feedrate: Option<Real>,
    pub layer_power: Option<Real>,
    pub program: Seq<Op>,
}

impl View for GCodeTurtle {
    type V = Drawing;

    open spec fn view(&self) -> Drawing {
        Drawing {
            feedrate: self.feedrate,
            layer_feedrate: self.layer_feedrate,
            layer_power: self.layer_power,
            program: ops(self.program@),
        }
    }
}

impl Circle {
    /// The arcs of which the part of a circle consists.
    pub open spec fn arcs(self, feedrate: Real) -> Seq<Op>
        decreases self,
    {
        match self {
            Circle::Part { to, radius, sweep } => seq![
                Op::Arc { to, radius, feedrate, clockwise: !sweep },
            ],
            Circle::Halves(a, b) => a.arcs(feedrate) + b.arcs(feedrate),
        }
    }
}

impl Drawing {
    /// The feed rate in effect: that of the layer, if it has one.
    pub open spec fn effective_feedrate(self) -> Real {
        match self.layer_feedrate {
            Some(f) => f,
            None => self.feedrate,
        }
    }

    /// With operations at the end of the program.
    pub open spec fn with(self, more: Seq<Op>) -> Drawing {
        Drawing { program: self.program + more, ..self }
    }

    /// What a line is: the tool is on, and the power of the layer is with it.
    pub open spec fn line(self, to: (Real, Real)) -> Seq<Op> {
        seq![
            Op::ToolOn,
            Op::Absolute,
            Op::Line { to, feedrate: self.effective_feedrate(), power: self.layer_power },
        ]
    }

    /// What a piece of a curve is.
    pub open spec fn piece(self, p: CurvePiece) -> Seq<Op> {
        match p {
            CurvePiece::Line(to) => self.line(to),
            CurvePiece::Circle(c) => c.arcs(self.effective_feedrate()),
        }
    }

    /// What the pieces of a curve are, in order.
    pub open spec fn pieces(self, v: Seq<CurvePiece>) -> Seq<Op>
        decreases v.len(),
    {
        if v.len() == 0 {
            seq![]
        } else {
            self.pieces(v.drop_last()) + self.piece(v.last())
        }
    }

    /// What a curve is.
    pub open spec fn curve(self, v: Seq<CurvePiece>) -> Seq<Op> {
        seq![Op::ToolOn, Op::Absolute] + self.pieces(v)
    }
}

impl GCodeTurtle {
    /// A turtle with an empty program.
    pub fn new(feedrate: Real) -> (r: GCodeTurtle)
        ensures
            r@ == (Drawing {
                feedrate,
                layer_feedrate: None,
                layer_power: None,
                program: seq![],
            }),
    {
        let r = GCodeTurtle {
            feedrate,
            layer_feedrate: None,
            layer_power: None,
            program: Vec::new(),
        };
        assert(ops(r.program@) =~= seq![]);
        r
    }

    /// The feed rate in effect: that of the layer, if it has one.
    pub fn effective_feedrate(&self) -> (r: Real)
        ensures
            r == self@.effective_feedrate(),
    {
        match self.layer_feedrate {
            Some(f) => f,
            None => self.feedrate,
        }
    }

    fn emit(&mut self, op: Operation)
        ensures
            final(self)@ == old(self)@.with(seq![op@]),
    {
        let ghost before = self.program@;
        let ghost shown = op@;
        self.program.push(op);
        assert(ops(self.program@) =~= ops(before) + seq![shown]);
    }

    fn tool_on(&mut self)
        ensures
            final(self)@ == old(self)@.with(seq![Op::ToolOn, Op::Absolute]),
    {
        self.emit(Operation::ToolOn);
        self.emit(Operation::Absolute);
        assert(self@.program =~= old(self)@.program + seq![Op::ToolOn, Op::Absolute]);
    }

    fn tool_off(&mut self)
        ensures
            final(self)@ == old(self)@.with(seq![Op::ToolOff, Op::Absolute]),
    {
        self.emit(Operation::ToolOff);
        self.emit(Operation::Absolute);
        assert(self@.program =~= old(self)@.program + seq![Op::ToolOff, Op::Absolute]);
    }

    /// Begin a program.
    pub fn begin(&mut self)
        ensures
            final(self)@ == old(self)@.with(
                seq![Op::Millimetres, Op::Absolute, Op::ProgramBegin, Op::Absolute],
            ),
    {
        self.emit(Operation::Millimetres);
        self.emit(Operation::Absolute);
        self.emit(Operation::ProgramBegin);
        self.emit(Operation::Absolute);
        assert(self@.program =~= old(self)@.program + seq![
            Op::Millimetres,
            Op::Absolute,
            Op::ProgramBegin,
            Op::Absolute,
        ]);
    }

    /// End a program, with the tool off.
    pub fn end(&mut self)
        ensures
            final(self)@ == old(self)@.with(seq![Op::ToolOff, Op::Absolute, Op::ProgramEnd]),
    {
        self.tool_off();
        self.emit(Operation::ProgramEnd);
        assert(self@.program =~= old(self)@.program + seq![
            Op::ToolOff,
            Op::Absolute,
            Op::ProgramEnd,
        ]);
    }

    /// Put a comment into the program.
    pub fn comment(&mut self, comment: String)
        ensures
            final(self)@ == old(self)@.with(seq![Op::Comment(comment@)]),
    {
        self.emit(Operation::Comment(comment));
    }

    /// Move somewhere without cutting.
    pub fn move_to(&mut self, to: (Real, Real))
        ensures
            final(self)@ == old(self)@.with(
                seq![Op::ToolOff, Op::Absolute, Op::Rapid { to }],
            ),
    {
        self.tool_off();
        self.emit(Operation::Rapid { to });
        assert(self@.program =~= old(self)@.program + seq![
            Op::ToolOff,
            Op::Absolute,
            Op::Rapid { to },
        ]);
    }

    /// Cut along a line.
    pub fn line_to(&mut self, to: (Real, Real))
        ensures
            final(self)@ == old(self)@.with(old(self)@.line(to)),
    {
        self.tool_on();
        let feedrate = self.effective_feedrate();
        let power = self.layer_power;
        self.emit(Operation::Line { to, feedrate, power });
        assert(self@.program =~= old(self)@.program + old(self)@.line(to));
    }

    fn circular_interpolation(&mut self, circle: &Circle)
        ensures
            final(self)@ == old(self)@.with(circle.arcs(old(self)@.effective_feedrate())),
        decreases circle,
    {
        match circle {
            Circle::Part { to, radius, sweep } => {
                let feedrate = self.effective_feedrate();
                self.emit(
                    Operation::Arc { to: *to, radius: *radius, feedrate, clockwise: !*sweep },
                );
            },
            Circle::Halves(a, b) => {
                self.circular_interpolation(a);
                self.circular_interpolation(b);
                assert(self@.program =~= old(self)@.program + circle.arcs(
                    old(self)@.effective_feedrate(),
                ));
            },
        }
    }

    fn draw(&mut self, pieces: &Vec<CurvePiece>)
        ensures
            final(self)@ == old(self)@.with(old(self)@.curve(pieces@)),
    {
        self.tool_on();
        let ghost start = old(self)@.with(seq![Op::ToolOn, Op::Absolute]);
        let mut i: usize = 0;
        assert(pieces@.take(0) =~= seq![]);
        assert(start.with(old(self)@.pieces(pieces@.take(0))).program =~= start.program);
        while i < pieces.len()
            invariant
                i <= pieces@.len(),
                start == old(self)@.with(seq![Op::ToolOn, Op::Absolute]),
                self@ == start.with(old(self)@.pieces(pieces@.take(i as int))),
            decreases pieces@.len() - i,
        {
            let ghost before = self@;
            match &pieces[i] {
                CurvePiece::Line(to) => {
                    self.line_to(*to);
                },
                CurvePiece::Circle(c) => {
                    self.circular_interpolation(c);
                },
            }
            proof {
                let now = pieces@.take(i + 1);
                assert(now.drop_last() =~= pieces@.take(i as int));
                assert(self@ == before.with(before.piece(pieces@[i as int])));
                assert(before.piece(pieces@[i as int]) == old(self)@.piece(pieces@[i as int]));
                assert(self@.program =~= start.program + old(self)@.pieces(now));
            }
            i = i + 1;
        }
        assert(pieces@.take(i as int) =~= pieces@);
        assert(self@.program =~= old(self)@.program + old(self)@.curve(pieces@));
    }

    /// Cut along an arc, given the pieces into which it was flattened; one that is
    /// straight is cut as a line.
    pub fn arc(&mut self, straight: bool, to: (Real, Real), pieces: &Vec<CurvePiece>)
        ensures
            final(self)@ == old(self)@.with(
                if straight {
                    old(self)@.line(to)
                } else {
                    old(self)@.curve(pieces@)
                },
            ),
    {
        if straight {
            self.line_to(to);
        } else {
            self.draw(pieces);
        }
    }

    /// Cut along a curve, given the pieces into which it was flattened.
    pub fn cubic_bezier(&mut self, pieces: &Vec<CurvePiece>)
        ensures
            final(self)@ == old(self)@.with(old(self)@.curve(pieces@)),
    {
        self.draw(pieces);
    }

    /// Set what holds for the layer.
    pub fn set_layer_overrides(&mut self, feedrate: Option<Real>, power: Option<Real>)
        ensures
            final(self)@ == (Drawing {
                layer_feedrate: feedrate,
                layer_power: power,
                ..old(self)@
            }),
    {
        self.layer_feedrate = feedrate;
        self.layer_power = power;
    }
}

// ── Safety ────────────────────────────────────────────────────────────────────

/// Whether the tool is on after some operations.
pub open spec fn tool_is_on(v: Seq<Op>) -> bool
    decreases v.len(),
{
    if v.len() == 0 {
        false
    } else {
        match v.last() {
            Op::ToolOn => true,
            Op::ToolOff => false,
            _ => tool_is_on(v.drop_last()),
        }
    }
}

/// Whether an operation may be done with the tool as it is.
pub open spec fn allowed(op: Op, on: bool) -> bool {
    match op {
        Op::Rapid { .. } => !on,
        Op::Line { .. } => on,
        Op::Arc { .. } => on,
        _ => true,
    }
}

/// Rapid moves are made with the tool off, cuts with the tool on.
pub open spec fn safe(v: Seq<Op>) -> bool
    decreases v.len(),
{
    v.len() == 0 || (safe(v.drop_last()) && allowed(v.last(), tool_is_on(v.drop_last())))
}

proof fn lemma_push(v: Seq<Op>, op: Op)
    requires
        safe(v),
        allowed(op, tool_is_on(v)),
    ensures
        safe(v.push(op)),
        op is ToolOn ==> tool_is_on(v.push(op)),
        op is ToolOff ==> !tool_is_on(v.push(op)),
        !(op is ToolOn) && !(op is ToolOff) ==> tool_is_on(v.push(op)) == tool_is_on(v),
{
    assert(v.push(op).drop_last() =~= v);
}

/// A rapid move keeps a program safe and leaves the tool off.
pub proof fn moves_are_safe(d: Drawing, to: (Real, Real))
    requires
        safe(d.program),
    ensures
        safe(d.with(seq![Op::ToolOff, Op::Absolute, Op::Rapid { to }]).program),
        !tool_is_on(d.with(seq![Op::ToolOff, Op::Absolute, Op::Rapid { to }]).program),
{
    let a = d.program.push(Op::ToolOff);
    let b = a.push(Op::Absolute);
    lemma_push(d.program, Op::ToolOff);
    lemma_push(a, Op::Absolute);
    lemma_push(b, Op::Rapid { to });
    assert(d.program + seq![Op::ToolOff, Op::Absolute, Op::Rapid { to }] =~= b.push(
        Op::Rapid { to },
    ));
}

/// A line keeps a program safe and leaves the tool on.
pub proof fn lines_are_safe(d: Drawing, to: (Real, Real))
    requires
        safe(d.program),
    ensures
        safe(d.with(d.line(to)).program),
        tool_is_on(d.with(d.line(to)).program),
{
    let a = d.program.push(Op::ToolOn);
    let b = a.push(Op::Absolute);
    lemma_push(d.program, Op::ToolOn);
    lemma_push(a, Op::Absolute);
    lemma_push(b, d.line(to)[2]);
    assert(d.program + d.line(to) =~= b.push(d.line(to)[2]));
}

proof fn lemma_arcs_are_safe(v: Seq<Op>, c: Circle, feedrate: Real)
    requires
        safe(v),
        tool_is_on(v),
    ensures
        safe(v + c.arcs(feedrate)),
        tool_is_on(v + c.arcs(feedrate)),
    decreases c,
{
    match c {
        Circle::Part { to, radius, sweep } => {
            let op = Op::Arc { to, radius, feedrate, clockwise: !sweep };
            lemma_push(v, op);
            assert(v + c.arcs(feedrate) =~= v.push(op));
        },
        Circle::Halves(a, b) => {
            lemma_arcs_are_safe(v, *a, feedrate);
            lemma_arcs_are_safe(v + a.arcs(feedrate), *b, feedrate);
            assert(v + c.arcs(feedrate) =~= v + a.arcs(feedrate) + b.arcs(feedrate));
        },
    }
}

proof fn lemma_pieces_are_safe(d: Drawing, v: Seq<Op>, pieces: Seq<CurvePiece>)
    requires
        safe(v),
        tool_is_on(v),
    ensures
        safe(v + d.pieces(pieces)),
        tool_is_on(v + d.pieces(pieces)),
    decreases pieces.len(),
{
    if pieces.len() == 0 {
        assert(v + d.pieces(pieces) =~= v);
    } else {
        lemma_pieces_are_safe(d, v, pieces.drop_last());
        let before = v + d.pieces(pieces.drop_last());
        match pieces.last() {
            CurvePiece::Line(to) => {
                let e = Drawing { program: before, ..d };
                lines_are_safe(e, to);
                assert(e.line(to) == d.line(to));
            },
            CurvePiece::Circle(c) => {
                lemma_arcs_are_safe(before, c, d.effective_feedrate());
            },
        }
        assert(v + d.pieces(pieces) =~= before + d.piece(pieces.last()));
    }
}

/// A curve keeps a program safe and leaves the tool on.
pub proof fn curves_are_safe(d: Drawing, pieces: Seq<CurvePiece>)
    requires
        safe(d.program),
    ensures
        safe(d.with(d.curve(pieces)).program),
        tool_is_on(d.with(d.curve(pieces)).program),
{
    let a = d.program.push(Op::ToolOn);
    let b = a.push(Op::Absolute);
    lemma_push(d.program, Op::ToolOn);
    lemma_push(a, Op::Absolute);
    lemma_pieces_are_safe(d, b, pieces);
    assert(d.program + d.curve(pieces) =~= b + d.pieces(pieces));
}

/// Beginning, ending and commenting keep a program safe; after its end the tool
/// is off.
pub proof fn framing_is_safe(d: Drawing, comment: Seq<char>)
    requires
        safe(d.program),
    ensures
        safe(
            d.with(seq![Op::Millimetres, Op::Absolute, Op::ProgramBegin, Op::Absolute]).program,
        ),
        safe(d.with(seq![Op::Comment(comment)]).program),
        safe(d.with(seq![Op::ToolOff, Op::Absolute, Op::ProgramEnd]).program),
        !tool_is_on(d.with(seq![Op::ToolOff, Op::Absolute, Op::ProgramEnd]).program),
{
    let p = d.program;
    let a = p.push(Op::Millimetres);
    let b = a.push(Op::Absolute);
    let c = b.push(Op::ProgramBegin);
    lemma_push(p, Op::Millimetres);
    lemma_push(a, Op::Absolute);
    lemma_push(b, Op::ProgramBegin);
    lemma_push(c, Op::Absolute);
    assert(p + seq![Op::Millimetres, Op::Absolute, Op::ProgramBegin, Op::Absolute] =~= c.push(
        Op::Absolute,
    ));
    lemma_push(p, Op::Comment(comment));
    assert(p + seq![Op::Comment(comment)] =~= p.push(Op::Comment(comment)));
    let e = p.push(Op::ToolOff);
    let f = e.push(Op::Absolute);
    lemma_push(p, Op::ToolOff);
    lemma_push(e, Op::Absolute);
    lemma_push(f, Op::ProgramEnd);
    assert(p + seq![Op::ToolOff, Op::Absolute, Op::ProgramEnd] =~= f.push(Op::ProgramEnd));
}

// ── Where the head goes ───────────────────────────────────────────────────────

/// Where the head is after some operations: where the last move or cut leads to.
pub open spec fn head(v: Seq<Op>, start: (Real, Real)) -> (Real, Real)
    decreases v.len(),
{
    if v.len() == 0 {
        start
    } else {
        match v.last() {
            Op::Rapid { to } => to,
            Op::Line { to, .. } => to,
            Op::Arc { to, .. } => to,
            _ => head(v.drop_last(), start),
        }
    }
}

/// How many cuts are among some operations.
pub open spec fn cuts(v: Seq<Op>) -> nat
    decreases v.len(),
{
    if v.len() == 0 {
        0
    } else {
        cuts(v.drop_last()) + (if v.last() is Line || v.last() is Arc {
            1nat
        } else {
            0
        })
    }
}

/// How many rapid moves are among some operations.
pub open spec fn travels(v: Seq<Op>) -> nat
    decreases v.len(),
{
    if v.len() == 0 {
        0
    } else {
        travels(v.drop_last()) + (if v.last() is Rapid {
            1nat
        } else {
            0
        })
    }
}

/// The head, the cuts and the travels of two series of operations one behind the
/// other.
pub proof fn operations_add_up(a: Seq<Op>, b: Seq<Op>, start: (Real, Real))
    ensures
        head(a + b, start) == head(b, head(a, start)),
        cuts(a + b) == cuts(a) + cuts(b),
        travels(a + b) == travels(a) + travels(b),
    decreases b.len(),
{
    if b.len() == 0 {
        assert(a + b =~= a);
    } else {
        operations_add_up(a, b.drop_last(), start);
        assert((a + b).drop_last() =~= a + b.drop_last());
        assert((a + b).last() == b.last());
    }
}

/// A line ends with a cut to the very point that was asked for, at the feed rate
/// of the layer if it has one and else of the job, and with the layer's power; it
/// is one cut and no travel.
pub proof fn a_line_is_cut_to_its_end(d: Drawing, to: (Real, Real), start: (Real, Real))
    ensures
        d.line(to).last() is Line,
        d.line(to).last()->Line_to.0 == to.0,
        d.line(to).last()->Line_to.1 == to.1,
        d.line(to).last()->Line_power == d.layer_power,
        d.layer_feedrate is Some ==> Some(d.line(to).last()->Line_feedrate) == d.layer_feedrate,
        d.layer_feedrate is None ==> d.line(to).last()->Line_feedrate == d.feedrate,
        head(d.line(to), start) == to,
        cuts(d.line(to)) == 1,
        travels(d.line(to)) == 0,
{
    let v = d.line(to);
    let a = seq![Op::ToolOn];
    let b = seq![Op::ToolOn, Op::Absolute];
    assert(v.drop_last() =~= b);
    assert(b.drop_last() =~= a);
    assert(a.drop_last() =~= seq![]);
    assert(v[v.len() - 1] == v.last());
    reveal_with_fuel(cuts, 4);
    reveal_with_fuel(travels, 4);
}

/// The parts of which a circle consists, the first half before the second.
pub open spec fn parts(c: Circle) -> Seq<((Real, Real), Real, bool)>
    decreases c,
{
    match c {
        Circle::Part { to, radius, sweep } => seq![(to, radius, sweep)],
        Circle::Halves(a, b) => parts(*a) + parts(*b),
    }
}

/// Each part of a circle is one arc to its own end with its own radius, clockwise
/// where it does not sweep; a circle has a part.
pub proof fn each_part_is_an_arc(c: Circle, feedrate: Real)
    ensures
        parts(c).len() >= 1,
        c.arcs(feedrate).len() == parts(c).len(),
        forall|i: int|
            #![trigger c.arcs(feedrate)[i]]
            0 <= i < parts(c).len() ==> {
                let op = c.arcs(feedrate)[i];
                &&& op is Arc
                &&& op->Arc_to == parts(c)[i].0
                &&& op->Arc_radius == parts(c)[i].1
                &&& op->Arc_clockwise != parts(c)[i].2
                &&& op->Arc_feedrate == feedrate
            },
        cuts(c.arcs(feedrate)) == parts(c).len(),
        travels(c.arcs(feedrate)) == 0,
        forall|start: (Real, Real)|
            #[trigger] head(c.arcs(feedrate), start) == parts(c).last().0,
    decreases c,
{
    match c {
        Circle::Part { to, radius, sweep } => {
            let v = c.arcs(feedrate);
            assert(v.drop_last() =~= seq![]);
            assert(v[0] == v.last());
            reveal_with_fuel(cuts, 2);
            reveal_with_fuel(travels, 2);
        },
        Circle::Halves(a, b) => {
            each_part_is_an_arc(*a, feedrate);
            each_part_is_an_arc(*b, feedrate);
            let (u, v) = (a.arcs(feedrate), b.arcs(feedrate));
            assert forall|i: int|
                #![trigger c.arcs(feedrate)[i]]
                0 <= i < parts(c).len() implies {
                let op = c.arcs(feedrate)[i];
                &&& op is Arc
                &&& op->Arc_to == parts(c)[i].0
                &&& op->Arc_radius == parts(c)[i].1
                &&& op->Arc_clockwise != parts(c)[i].2
                &&& op->Arc_feedrate == feedrate
            } by {
                if i < u.len() {
                    assert(c.arcs(feedrate)[i] == u[i]);
                } else {
                    assert(c.arcs(feedrate)[i] == v[i - u.len()]);
                }
            }
            assert forall|start: (Real, Real)|
                #[trigger] head(c.arcs(feedrate), start) == parts(c).last().0 by {
                operations_add_up(u, v, start);
                assert(parts(c).last() == parts(*b).last());
            }
            operations_add_up(u, v, (Real::spec_zero(), Real::spec_zero()));
        },
    }
}

/// Where a piece of a curve ends.
pub open spec fn piece_end(p: CurvePiece) -> (Real, Real) {
    match p {
        CurvePiece::Line(to) => to,
        CurvePiece::Circle(c) => parts(c).last().0,
    }
}

/// How many cuts a piece of a curve takes.
pub open spec fn piece_cuts(p: CurvePiece) -> nat {
    match p {
        CurvePiece::Line(_) => 1,
        CurvePiece::Circle(c) => parts(c).len(),
    }
}

/// How many cuts the pieces of a curve take.
pub open spec fn all_cuts(v: Seq<CurvePiece>) -> nat
    decreases v.len(),
{
    if v.len() == 0 {
        0
    } else {
        all_cuts(v.drop_last()) + piece_cuts(v.last())
    }
}

/// A curve ends where its last piece ends and is made of cuts alone: one for each
/// line and one for each part of a circle.
pub proof fn a_curve_ends_with_its_last_piece(
    d: Drawing,
    v: Seq<CurvePiece>,
    start: (Real, Real),
)
    ensures
        v.len() > 0 ==> head(d.curve(v), start) == piece_end(v.last()),
        v.len() == 0 ==> head(d.curve(v), start) == start,
        travels(d.curve(v)) == 0,
        cuts(d.curve(v)) == all_cuts(v),
{
    lemma_pieces_end(d, v, start);
    let a = seq![Op::ToolOn];
    let b = seq![Op::ToolOn, Op::Absolute];
    assert(b.drop_last() =~= a);
    assert(a.drop_last() =~= seq![]);
    reveal_with_fuel(head, 3);
    reveal_with_fuel(cuts, 3);
    reveal_with_fuel(travels, 3);
    assert(head(b, start) == start);
    operations_add_up(b, d.pieces(v), start);
}

proof fn lemma_pieces_end(d: Drawing, v: Seq<CurvePiece>, start: (Real, Real))
    ensures
        v.len() > 0 ==> head(d.pieces(v), start) == piece_end(v.last()),
        v.len() == 0 ==> head(d.pieces(v), start) == start,
        travels(d.pieces(v)) == 0,
        cuts(d.pieces(v)) == all_cuts(v),
    decreases v.len(),
{
    if v.len() > 0 {
        lemma_pieces_end(d, v.drop_last(), start);
        let before = d.pieces(v.drop_last());
        operations_add_up(before, d.piece(v.last()), start);
        match v.last() {
            CurvePiece::Line(to) => {
                a_line_is_cut_to_its_end(d, to, head(before, start));
            },
            CurvePiece::Circle(c) => {
                each_part_is_an_arc(c, d.effective_feedrate());
                assert(head(c.arcs(d.effective_feedrate()), head(before, start)) == parts(
                    c,
                ).last().0);
            },
        }
    }
}

/// Whether an operation, if it is a cut, is at the feed rate of the layer or else
/// of the job, and a line at the layer's power.
pub open spec fn fed(op: Op, layer: Option<Real>, job: Real, power: Option<Real>) -> bool {
    match op {
        Op::Line { feedrate, power: p, .. } => p == power && (if layer is Some {
            layer == Some(feedrate)
        } else {
            feedrate == job
        }),
        Op::Arc { feedrate, .. } => if layer is Some {
            layer == Some(feedrate)
        } else {
            feedrate == job
        },
        _ => true,
    }
}

/// Every cut of a curve is fed by its layer.
pub proof fn curves_are_fed_by_their_layer(d: Drawing, v: Seq<CurvePiece>)
    ensures
        forall|i: int|
            0 <= i < d.curve(v).len() ==> fed(
                #[trigger] d.curve(v)[i],
                d.layer_feedrate,
                d.feedrate,
                d.layer_power,
            ),
        forall|i: int, to: (Real, Real)|
            #![trigger d.line(to)[i]]
            0 <= i < d.line(to).len() ==> fed(
                d.line(to)[i],
                d.layer_feedrate,
                d.feedrate,
                d.layer_power,
            ),
{
    lemma_pieces_are_fed(d, v);
    let tool = seq![Op::ToolOn, Op::Absolute];
    assert forall|i: int| 0 <= i < d.curve(v).len() implies fed(
        #[trigger] d.curve(v)[i],
        d.layer_feedrate,
        d.feedrate,
        d.layer_power,
    ) by {
        if i >= 2 {
            assert(d.curve(v)[i] == d.pieces(v)[i - 2]);
        }
    }
}

proof fn lemma_pieces_are_fed(d: Drawing, v: Seq<CurvePiece>)
    ensures
        forall|i: int|
            0 <= i < d.pieces(v).len() ==> fed(
                #[trigger] d.pieces(v)[i],
                d.layer_feedrate,
                d.feedrate,
                d.layer_power,
            ),
    decreases v.len(),
{
    if v.len() > 0 {
        lemma_pieces_are_fed(d, v.drop_last());
        let n = d.pieces(v.drop_last()).len();
        match v.last() {
            CurvePiece::Circle(c) => {
                each_part_is_an_arc(c, d.effective_feedrate());
            },
            _ => {},
        }
        assert forall|i: int| 0 <= i < d.pieces(v).len() implies fed(
            #[trigger] d.pieces(v)[i],
            d.layer_feedrate,
            d.feedrate,
            d.layer_power,
        ) by {
            if i < n {
                assert(d.pieces(v)[i] == d.pieces(v.drop_last())[i]);
            } else {
                assert(d.pieces(v)[i] == d.piece(v.last())[i - n]);
            }
        }
    }
}

/// A program is seen operation by operation, each with its own numbers, and the
/// turtle with its own settings.
pub proof fn operations_are_seen_as_they_are(t: GCodeTurtle, i: int)
    requires
        0 <= i < t.program@.len(),
    ensures
        t@.program.len() == t.program@.len(),
        t@.feedrate == t.feedrate,
        t@.layer_feedrate == t.layer_feedrate,
        t@.layer_power == t.layer_power,
        t.program@[i] matches Operation::Comment(c) ==> t@.program[i] == Op::Comment(c@),
        t.program@[i] matches Operation::Rapid { to } ==> t@.program[i] == (Op::Rapid { to }),
        t.program@[i] matches Operation::Line { to, feedrate, power } ==> t@.program[i] == (
        Op::Line { to, feedrate, power }),
        t.program@[i] matches Operation::Arc { to, radius, feedrate, clockwise }
            ==> t@.program[i] == (Op::Arc { to, radius, feedrate, clockwise }),
        t.program@[i] is ToolOn <==> t@.program[i] is ToolOn,
        t.program@[i] is ToolOff <==> t@.program[i] is ToolOff,
        t.program@[i] is Millimetres <==> t@.program[i] is Millimetres,
        t.program@[i] is Absolute <==> t@.program[i] is Absolute,
        t.program@[i] is ProgramBegin <==> t@.program[i] is ProgramBegin,
        t.program@[i] is ProgramEnd <==> t@.program[i] is ProgramEnd,
{
}

} // verus!
