//! From the paths of a drawing to a program.
use vstd::prelude::*;

use crate::binary64::Real;
use crate::text;
use crate::turtle::{CurvePiece, Drawing, GCodeTurtle, Op};
use crate::turtle;
use crate::visitor::{ConversionConfig, LayerOverride, comment, current_passes};
use crate::visitor;

verus! {

/// A segment of a path in millimetres, with curves flattened.
#[derive(Debug)]
pub enum PathSegment {
    Move((Real, Real)),
    Line((Real, Real)),
    /// An arc; one that is straight is cut as a line to its end.
    Arc { straight: bool, to: (Real, Real), pieces: Vec<CurvePiece> },
    Curve(Vec<CurvePiece>),
}

/// A path of a drawing and what stands around it.
#[derive(Debug)]
pub struct Shape {
    /// The names of the nodes around the path, the outermost first.
    pub names: Vec<String>,
    pub name: String,
    /// What the groups around the path say, the outermost first.
    pub groups: Vec<LayerOverride>,
    pub segments: Vec<PathSegment>,
}

// ── Overrides ─────────────────────────────────────────────────────────────────

/// The feed rate in the innermost group that gives one.
pub open spec fn feedrate_in(groups: Seq<LayerOverride>) -> Option<Real>
    decreases groups.len(),
{
    if groups.len() == 0 {
        None
    } else if groups.last().feedrate is Some {
        groups.last().feedrate
    } else {
        feedrate_in(groups.drop_last())
    }
}

/// The power in the innermost group that gives one.
pub open spec fn power_in(groups: Seq<LayerOverride>) -> Option<Real>
    decreases groups.len(),
{
    if groups.len() == 0 {
        None
    } else if groups.last().power is Some {
        groups.last().power
    } else {
        power_in(groups.drop_last())
    }
}

/// Feed rate and power for shapes within nested groups, the innermost last.
pub fn current_overrides(groups: &Vec<LayerOverride>) -> (r: (Option<Real>, Option<Real>))
    ensures
        r == (feedrate_in(groups@), power_in(groups@)),
{
    let mut feedrate: Option<Real> = None;
    let mut power: Option<Real> = None;
    let mut i: usize = 0;
    assert(groups@.take(0) =~= seq![]);
    while i < groups.len()
        invariant
            i <= groups@.len(),
            feedrate == feedrate_in(groups@.take(i as int)),
            power == power_in(groups@.take(i as int)),
        decreases groups@.len() - i,
    {
        assert(groups@.take(i + 1).drop_last() =~= groups@.take(i as int));
        assert(groups@.take(i + 1).last() == groups@[i as int]);
        if groups[i].feedrate.is_some() {
            feedrate = groups[i].feedrate;
        }
        if groups[i].power.is_some() {
            power = groups[i].power;
        }
        i = i + 1;
    }
    assert(groups@.take(i as int) =~= groups@);
    (feedrate, power)
}

// ── Drawing ───────────────────────────────────────────────────────────────────

/// The drawing after a segment.
pub open spec fn drawn(d: Drawing, s: PathSegment) -> Drawing {
    match s {
        PathSegment::Move(to) => d.with(seq![Op::ToolOff, Op::Absolute, Op::Rapid { to }]),
        PathSegment::Line(to) => d.with(d.line(to)),
        PathSegment::Arc { straight, to, pieces } => d.with(
            if straight {
                d.line(to)
            } else {
                d.curve(pieces@)
            },
        ),
        PathSegment::Curve(pieces) => d.with(d.curve(pieces@)),
    }
}

/// The drawing after some segments.
pub open spec fn all_drawn(d: Drawing, v: Seq<PathSegment>) -> Drawing
    decreases v.len(),
{
    if v.len() == 0 {
        d
    } else {
        drawn(all_drawn(d, v.drop_last()), v.last())
    }
}

/// The drawing after some segments, `n` times over.
pub open spec fn drawn_again(d: Drawing, v: Seq<PathSegment>, n: nat) -> Drawing
    decreases n,
{
    if n == 0 {
        d
    } else {
        all_drawn(drawn_again(d, v, (n - 1) as nat), v)
    }
}

/// The drawing after a shape: its name as a comment, then its path as often as
/// there are passes, with the feed rate and the power of its layer.
pub open spec fn shape_drawn(d: Drawing, s: Shape) -> Drawing {
    let named = d.with(
        seq![Op::Comment(visitor::way(text::texts(s.names@)) + s.name@)],
    );
    let set = Drawing {
        layer_feedrate: feedrate_in(s.groups@),
        layer_power: power_in(s.groups@),
        ..named
    };
    drawn_again(set, s.segments@, visitor::passes_in(s.groups@) as nat)
}

/// The drawing after some shapes.
pub open spec fn shapes_drawn(d: Drawing, v: Seq<Shape>) -> Drawing
    decreases v.len(),
{
    if v.len() == 0 {
        d
    } else {
        shape_drawn(shapes_drawn(d, v.drop_last()), v.last())
    }
}

/// A program that has only begun.
pub open spec fn begun(feedrate: Real) -> Drawing {
    Drawing {
        feedrate,
        layer_feedrate: None,
        layer_power: None,
        program: seq![Op::Millimetres, Op::Absolute, Op::ProgramBegin, Op::Absolute],
    }
}

/// The program for some shapes.
pub open spec fn program_of(feedrate: Real, v: Seq<Shape>) -> Drawing {
    shapes_drawn(begun(feedrate), v).with(seq![Op::ToolOff, Op::Absolute, Op::ProgramEnd])
}

fn draw_segment(turtle: &mut GCodeTurtle, segment: &PathSegment)
    ensures
        final(turtle)@ == drawn(old(turtle)@, *segment),
{
    match segment {
        PathSegment::Move(to) => {
            turtle.move_to(*to);
        },
        PathSegment::Line(to) => {
            turtle.line_to(*to);
        },
        PathSegment::Arc { straight, to, pieces } => {
            turtle.arc(*straight, *to, pieces);
        },
        PathSegment::Curve(pieces) => {
            turtle.cubic_bezier(pieces);
        },
    }
}

fn draw_path(turtle: &mut GCodeTurtle, segments: &Vec<PathSegment>)
    ensures
        final(turtle)@ == all_drawn(old(turtle)@, segments@),
{
    let mut i: usize = 0;
    assert(segments@.take(0) =~= seq![]);
    while i < segments.len()
        invariant
            i <= segments@.len(),
            turtle@ == all_drawn(old(turtle)@, segments@.take(i as int)),
        decreases segments@.len() - i,
    {
        assert(segments@.take(i + 1).drop_last() =~= segments@.take(i as int));
        assert(segments@.take(i + 1).last() == segments@[i as int]);
        draw_segment(turtle, &segments[i]);
        i = i + 1;
    }
    assert(segments@.take(i as int) =~= segments@);
}

fn draw_shape(turtle: &mut GCodeTurtle, shape: &Shape)
    ensures
        final(turtle)@ == shape_drawn(old(turtle)@, *shape),
{
    turtle.comment(comment(&shape.names, shape.name.as_str()));
    let (feedrate, power) = current_overrides(&shape.groups);
    turtle.set_layer_overrides(feedrate, power);
    let ghost set = turtle@;
    let passes = current_passes(&shape.groups);
    let mut n: u32 = 0;
    while n < passes
        invariant
            n <= passes,
            turtle@ == drawn_again(set, shape.segments@, n as nat),
        decreases passes - n,
    {
        draw_path(turtle, &shape.segments);
        n = n + 1;
    }
}

/// The program for the shapes of a drawing, which are where they are to be cut.
pub fn svg2program(shapes: &Vec<Shape>, config: &ConversionConfig) -> (r: GCodeTurtle)
    ensures
        r@ == program_of(config.feedrate, shapes@),
{
    let mut turtle = GCodeTurtle::new(config.feedrate);
    turtle.begin();
    assert(turtle@.program =~= begun(config.feedrate).program);
    let mut i: usize = 0;
    assert(shapes@.take(0) =~= seq![]);
    while i < shapes.len()
        invariant
            i <= shapes@.len(),
            turtle@ == shapes_drawn(begun(config.feedrate), shapes@.take(i as int)),
        decreases shapes@.len() - i,
    {
        assert(shapes@.take(i + 1).drop_last() =~= shapes@.take(i as int));
        assert(shapes@.take(i + 1).last() == shapes@[i as int]);
        draw_shape(&mut turtle, &shapes[i]);
        i = i + 1;
    }
    assert(shapes@.take(i as int) =~= shapes@);
    turtle.end();
    turtle
}

// ── Laws ──────────────────────────────────────────────────────────────────────

proof fn lemma_path_is_safe(d: Drawing, v: Seq<PathSegment>)
    requires
        turtle::safe(d.program),
    ensures
        turtle::safe(all_drawn(d, v).program),
    decreases v.len(),
{
    if v.len() > 0 {
        lemma_path_is_safe(d, v.drop_last());
        let e = all_drawn(d, v.drop_last());
        match v.last() {
            PathSegment::Move(to) => {
                turtle::moves_are_safe(e, to);
            },
            PathSegment::Line(to) => {
                turtle::lines_are_safe(e, to);
            },
            PathSegment::Arc { straight, to, pieces } => {
                turtle::lines_are_safe(e, to);
                turtle::curves_are_safe(e, pieces@);
            },
            PathSegment::Curve(pieces) => {
                turtle::curves_are_safe(e, pieces@);
            },
        }
    }
}

proof fn lemma_passes_are_safe(d: Drawing, v: Seq<PathSegment>, n: nat)
    requires
        turtle::safe(d.program),
    ensures
        turtle::safe(drawn_again(d, v, n).program),
    decreases n,
{
    if n > 0 {
        lemma_passes_are_safe(d, v, (n - 1) as nat);
        lemma_path_is_safe(drawn_again(d, v, (n - 1) as nat), v);
    }
}

proof fn lemma_shapes_are_safe(d: Drawing, v: Seq<Shape>)
    requires
        turtle::safe(d.program),
    ensures
        turtle::safe(shapes_drawn(d, v).program),
    decreases v.len(),
{
    if v.len() > 0 {
        lemma_shapes_are_safe(d, v.drop_last());
        let e = shapes_drawn(d, v.drop_last());
        let s = v.last();
        let name = visitor::way(text::texts(s.names@)) + s.name@;
        turtle::framing_is_safe(e, name);
        let set = Drawing {
            layer_feedrate: feedrate_in(s.groups@),
            layer_power: power_in(s.groups@),
            ..e.with(seq![Op::Comment(name)])
        };
        lemma_passes_are_safe(set, s.segments@, visitor::passes_in(s.groups@) as nat);
    }
}

/// In the program for any drawing all rapid moves are made with the tool off and
/// all cuts with the tool on, and at its end the tool is off.
pub proof fn programs_are_safe(feedrate: Real, v: Seq<Shape>)
    ensures
        turtle::safe(program_of(feedrate, v).program),
        !turtle::tool_is_on(program_of(feedrate, v).program),
{
    let empty = Drawing {
        feedrate,
        layer_feedrate: None,
        layer_power: None,
        program: seq![],
    };
    turtle::framing_is_safe(empty, seq![]);
    assert(empty.with(
        seq![Op::Millimetres, Op::Absolute, Op::ProgramBegin, Op::Absolute],
    ).program =~= begun(feedrate).program);
    lemma_shapes_are_safe(begun(feedrate), v);
    turtle::framing_is_safe(shapes_drawn(begun(feedrate), v), seq![]);
}

/// A group that gives neither a feed rate nor a power changes neither; one that
/// gives them decides.
pub proof fn innermost_override_decides(groups: Seq<LayerOverride>, group: LayerOverride)
    ensures
        feedrate_in(groups.push(group)) == (if group.feedrate is Some {
            group.feedrate
        } else {
            feedrate_in(groups)
        }),
        power_in(groups.push(group)) == (if group.power is Some {
            group.power
        } else {
            power_in(groups)
        }),
{
    assert(groups.push(group).drop_last() =~= groups);
}

// ── What a program does ───────────────────────────────────────────────────────

/// Where a segment ends that begins at a point.
pub open spec fn segment_end(s: PathSegment, at: (Real, Real)) -> (Real, Real) {
    match s {
        PathSegment::Move(to) => to,
        PathSegment::Line(to) => to,
        PathSegment::Arc { straight, to, pieces } => if straight {
            to
        } else if pieces@.len() > 0 {
            turtle::piece_end(pieces@.last())
        } else {
            at
        },
        PathSegment::Curve(pieces) => if pieces@.len() > 0 {
            turtle::piece_end(pieces@.last())
        } else {
            at
        },
    }
}

/// Where a path ends that begins at a point.
pub open spec fn path_end(v: Seq<PathSegment>, at: (Real, Real)) -> (Real, Real)
    decreases v.len(),
{
    if v.len() == 0 {
        at
    } else {
        segment_end(v.last(), path_end(v.drop_last(), at))
    }
}

/// The settings of a drawing without its program.
pub open spec fn bare(d: Drawing) -> Drawing {
    Drawing { program: seq![], ..d }
}

/// A segment is put behind what is drawn already, which it does not change, and
/// what is put there depends on the settings alone.  A move is one travel and no
/// cut, a line one cut and no travel, a curve no travel; each leads to its end.
pub proof fn a_segment_leads_to_its_end(d: Drawing, s: PathSegment, start: (Real, Real))
    ensures
        drawn(d, s).program == d.program + drawn(bare(d), s).program,
        drawn(d, s).feedrate == d.feedrate,
        drawn(d, s).layer_feedrate == d.layer_feedrate,
        drawn(d, s).layer_power == d.layer_power,
        turtle::head(drawn(d, s).program, start) == segment_end(s, turtle::head(d.program, start)),
        turtle::travels(drawn(bare(d), s).program) == (if s is Move {
            1nat
        } else {
            0
        }),
        s is Move ==> turtle::cuts(drawn(bare(d), s).program) == 0,
        s is Line ==> turtle::cuts(drawn(bare(d), s).program) == 1,
        s matches PathSegment::Curve(p) ==> turtle::cuts(drawn(bare(d), s).program)
            == turtle::all_cuts(p@),
        forall|i: int|
            0 <= i < drawn(bare(d), s).program.len() ==> turtle::fed(
                #[trigger] drawn(bare(d), s).program[i],
                d.layer_feedrate,
                d.feedrate,
                d.layer_power,
            ),
{
    let more = drawn(bare(d), s).program;
    let here = turtle::head(d.program, start);
    assert(bare(d).line((Real::spec_zero(), Real::spec_zero())) == d.line(
        (Real::spec_zero(), Real::spec_zero()),
    ));
    match s {
        PathSegment::Move(to) => {
            let a = seq![Op::ToolOff];
            let b = seq![Op::ToolOff, Op::Absolute];
            assert(more =~= seq![Op::ToolOff, Op::Absolute, Op::Rapid { to }]);
            assert(more.drop_last() =~= b);
            assert(b.drop_last() =~= a);
            assert(a.drop_last() =~= seq![]);
            assert(more[2] == more.last());
            reveal_with_fuel(turtle::cuts, 4);
            reveal_with_fuel(turtle::travels, 4);
        },
        PathSegment::Line(to) => {
            assert(bare(d).line(to) == d.line(to));
            assert(more =~= d.line(to));
            turtle::a_line_is_cut_to_its_end(d, to, here);
            turtle::curves_are_fed_by_their_layer(d, seq![]);
        },
        PathSegment::Arc { straight, to, pieces } => {
            assert(bare(d).line(to) == d.line(to));
            lemma_same_pieces(bare(d), d, pieces@);
            turtle::a_line_is_cut_to_its_end(d, to, here);
            turtle::a_curve_ends_with_its_last_piece(d, pieces@, here);
            turtle::curves_are_fed_by_their_layer(d, pieces@);
            if straight {
                assert(more =~= d.line(to));
            } else {
                assert(more =~= d.curve(pieces@));
            }
        },
        PathSegment::Curve(pieces) => {
            lemma_same_pieces(bare(d), d, pieces@);
            turtle::a_curve_ends_with_its_last_piece(d, pieces@, here);
            turtle::curves_are_fed_by_their_layer(d, pieces@);
            assert(more =~= d.curve(pieces@));
        },
    }
    assert(drawn(d, s).program =~= d.program + more);
    turtle::operations_add_up(d.program, more, start);
}

proof fn lemma_same_pieces(a: Drawing, b: Drawing, v: Seq<CurvePiece>)
    requires
        bare(a) == bare(b),
    ensures
        a.pieces(v) == b.pieces(v),
        a.curve(v) == b.curve(v),
    decreases v.len(),
{
    if v.len() > 0 {
        lemma_same_pieces(a, b, v.drop_last());
        match v.last() {
            CurvePiece::Line(to) => {
                assert(a.line(to) == b.line(to));
            },
            _ => {},
        }
    }
}

/// A path is put behind what is drawn already, and leads to the end of its last
/// segment; every cut is fed by the layer.
pub proof fn a_path_leads_to_its_end(d: Drawing, v: Seq<PathSegment>, start: (Real, Real))
    ensures
        all_drawn(d, v).program == d.program + all_drawn(bare(d), v).program,
        bare(all_drawn(d, v)) == bare(d),
        turtle::head(all_drawn(d, v).program, start) == path_end(
            v,
            turtle::head(d.program, start),
        ),
        forall|i: int|
            0 <= i < all_drawn(bare(d), v).program.len() ==> turtle::fed(
                #[trigger] all_drawn(bare(d), v).program[i],
                d.layer_feedrate,
                d.feedrate,
                d.layer_power,
            ),
    decreases v.len(),
{
    if v.len() == 0 {
        assert(d.program + all_drawn(bare(d), v).program =~= d.program);
    } else {
        let w = v.drop_last();
        a_path_leads_to_its_end(d, w, start);
        a_path_leads_to_its_end(bare(d), w, start);
        let (e, f) = (all_drawn(d, w), all_drawn(bare(d), w));
        a_segment_leads_to_its_end(e, v.last(), start);
        a_segment_leads_to_its_end(f, v.last(), start);
        assert(bare(e) == bare(f));
        let more = drawn(bare(e), v.last()).program;
        assert(all_drawn(bare(d), v).program == f.program + more);
        assert(all_drawn(d, v).program =~= d.program + (f.program + more));
        assert forall|i: int| 0 <= i < all_drawn(bare(d), v).program.len() implies turtle::fed(
            #[trigger] all_drawn(bare(d), v).program[i],
            d.layer_feedrate,
            d.feedrate,
            d.layer_power,
        ) by {
            if i < f.program.len() {
                assert(all_drawn(bare(d), v).program[i] == f.program[i]);
            } else {
                assert(all_drawn(bare(d), v).program[i] == more[i - f.program.len()]);
            }
        }
    }
}

/// Every pass puts the same operations behind the ones before it, and none is
/// left out or added.
pub proof fn passes_repeat_the_path(d: Drawing, v: Seq<PathSegment>, n: nat)
    ensures
        drawn_again(d, v, 0).program == d.program,
        drawn_again(d, v, n + 1).program == drawn_again(d, v, n).program + all_drawn(
            bare(d),
            v,
        ).program,
        bare(drawn_again(d, v, n)) == bare(d),
        turtle::cuts(drawn_again(d, v, n).program) == turtle::cuts(d.program) + n * turtle::cuts(
            all_drawn(bare(d), v).program,
        ),
        turtle::travels(drawn_again(d, v, n).program) == turtle::travels(d.program) + n
            * turtle::travels(all_drawn(bare(d), v).program),
    decreases n,
{
    let zero = (Real::spec_zero(), Real::spec_zero());
    let once = all_drawn(bare(d), v).program;
    let (c, t) = (turtle::cuts(once) as int, turtle::travels(once) as int);
    if n > 0 {
        let k = (n - 1) as nat;
        passes_repeat_the_path(d, v, k);
        turtle::operations_add_up(drawn_again(d, v, k).program, once, zero);
        assert(n * c == k * c + c) by (nonlinear_arith)
            requires
                n == k + 1,
        ;
        assert(n * t == k * t + t) by (nonlinear_arith)
            requires
                n == k + 1,
        ;
        a_path_leads_to_its_end(drawn_again(d, v, k), v, zero);
    }
    a_path_leads_to_its_end(drawn_again(d, v, n), v, zero);
    assert(bare(drawn_again(d, v, n)) == bare(d));
    assert(0 * c == 0 && 0 * t == 0);
}

/// The comments among some operations.
pub open spec fn comments(v: Seq<Op>) -> Seq<Seq<char>>
    decreases v.len(),
{
    if v.len() == 0 {
        seq![]
    } else {
        match v.last() {
            Op::Comment(c) => comments(v.drop_last()).push(c),
            _ => comments(v.drop_last()),
        }
    }
}

/// The comments of two series of operations one behind the other.
pub proof fn comments_add_up(a: Seq<Op>, b: Seq<Op>)
    ensures
        comments(a + b) == comments(a) + comments(b),
    decreases b.len(),
{
    if b.len() == 0 {
        assert(a + b =~= a);
        assert(comments(a) + comments(b) =~= comments(a));
    } else {
        comments_add_up(a, b.drop_last());
        assert((a + b).drop_last() =~= a + b.drop_last());
        assert((a + b).last() == b.last());
        assert(comments(a + b) =~= comments(a) + comments(b));
    }
}

proof fn lemma_paths_have_no_comments(d: Drawing, v: Seq<PathSegment>)
    ensures
        comments(all_drawn(bare(d), v).program) == Seq::<Seq<char>>::empty(),
    decreases v.len(),
{
    if v.len() > 0 {
        let w = v.drop_last();
        lemma_paths_have_no_comments(d, w);
        let e = all_drawn(bare(d), w);
        let more = drawn(bare(e), v.last()).program;
        assert(drawn(e, v.last()).program == e.program + more) by {
            a_segment_leads_to_its_end(e, v.last(), (Real::spec_zero(), Real::spec_zero()));
        }
        lemma_segments_have_no_comments(bare(e), v.last());
        comments_add_up(e.program, more);
    }
}

proof fn lemma_segments_have_no_comments(d: Drawing, s: PathSegment)
    requires
        d.program.len() == 0,
    ensures
        comments(drawn(d, s).program) == Seq::<Seq<char>>::empty(),
{
    match s {
        PathSegment::Arc { pieces, .. } => {
            lemma_pieces_have_no_comments(d, pieces@);
        },
        PathSegment::Curve(pieces) => {
            lemma_pieces_have_no_comments(d, pieces@);
        },
        _ => {},
    }
    lemma_no_comments(drawn(d, s).program);
}

proof fn lemma_pieces_have_no_comments(d: Drawing, v: Seq<CurvePiece>)
    ensures
        forall|i: int| 0 <= i < d.pieces(v).len() ==> !((#[trigger] d.pieces(v)[i]) is Comment),
    decreases v.len(),
{
    if v.len() > 0 {
        lemma_pieces_have_no_comments(d, v.drop_last());
        let n = d.pieces(v.drop_last()).len();
        match v.last() {
            CurvePiece::Circle(c) => {
                turtle::each_part_is_an_arc(c, d.effective_feedrate());
            },
            _ => {},
        }
        assert forall|i: int| 0 <= i < d.pieces(v).len() implies !((#[trigger] d.pieces(
            v,
        )[i]) is Comment) by {
            if i < n {
                assert(d.pieces(v)[i] == d.pieces(v.drop_last())[i]);
            } else {
                assert(d.pieces(v)[i] == d.piece(v.last())[i - n]);
            }
        }
    }
}

proof fn lemma_no_comments(v: Seq<Op>)
    requires
        forall|i: int| 0 <= i < v.len() ==> !((#[trigger] v[i]) is Comment),
    ensures
        comments(v) == Seq::<Seq<char>>::empty(),
    decreases v.len(),
{
    if v.len() > 0 {
        assert(v[v.len() - 1] == v.last());
        assert forall|i: int| 0 <= i < v.drop_last().len() implies !((#[trigger] v.drop_last()[i]) is Comment) by {
            assert(v.drop_last()[i] == v[i]);
        }
        lemma_no_comments(v.drop_last());
    }
}

/// A shape is one comment that ends with its name, and its path as often as its
/// innermost group says, every cut fed by its groups; the feed rate of the job
/// stays.
pub proof fn a_shape_is_its_path_in_passes(d: Drawing, s: Shape)
    ensures
        ({
            let after = shape_drawn(d, s);
            let set = Drawing {
                feedrate: d.feedrate,
                layer_feedrate: feedrate_in(s.groups@),
                layer_power: power_in(s.groups@),
                program: seq![],
            };
            let once = all_drawn(set, s.segments@).program;
            let passes = visitor::passes_in(s.groups@);
            &&& after.feedrate == d.feedrate
            &&& d.program.is_prefix_of(after.program)
            &&& after.program.len() == d.program.len() + 1 + passes * once.len()
            &&& turtle::cuts(after.program) == turtle::cuts(d.program) + passes * turtle::cuts(once)
            &&& comments(after.program) == comments(d.program).push(
                visitor::way(text::texts(s.names@)) + s.name@,
            )
            &&& forall|i: int|
                d.program.len() <= i < after.program.len() ==> turtle::fed(
                    #[trigger] after.program[i],
                    feedrate_in(s.groups@),
                    d.feedrate,
                    power_in(s.groups@),
                )
        }),
{
    let name = visitor::way(text::texts(s.names@)) + s.name@;
    let named = d.with(seq![Op::Comment(name)]);
    let start = Drawing {
        layer_feedrate: feedrate_in(s.groups@),
        layer_power: power_in(s.groups@),
        ..named
    };
    let n = visitor::passes_in(s.groups@) as nat;
    lemma_passes(start, s.segments@, n);
    let set = bare(start);
    let tail = seq![Op::Comment(name)];
    assert(tail.drop_last() =~= seq![]);
    assert(tail.last() == tail[0]);
    reveal_with_fuel(comments, 2);
    reveal_with_fuel(turtle::cuts, 2);
    comments_add_up(d.program, tail);
    turtle::operations_add_up(d.program, tail, (Real::spec_zero(), Real::spec_zero()));
    assert(comments(start.program) =~= comments(d.program).push(name));
    assert(turtle::cuts(start.program) == turtle::cuts(d.program));
    let after = shape_drawn(d, s);
    assert forall|i: int| d.program.len() <= i < after.program.len() implies turtle::fed(
        #[trigger] after.program[i],
        feedrate_in(s.groups@),
        d.feedrate,
        power_in(s.groups@),
    ) by {
        if i == d.program.len() {
            assert(after.program[i] == start.program[i]);
        }
    }
    assert(d.program =~= after.program.take(d.program.len() as int));
}

proof fn lemma_passes(d: Drawing, v: Seq<PathSegment>, n: nat)
    ensures
        ({
            let after = drawn_again(d, v, n);
            let once = all_drawn(bare(d), v).program;
            &&& bare(after) == bare(d)
            &&& after.program.len() == d.program.len() + n * once.len()
            &&& after.program.take(d.program.len() as int) == d.program
            &&& turtle::cuts(after.program) == turtle::cuts(d.program) + n * turtle::cuts(once)
            &&& comments(after.program) == comments(d.program)
            &&& forall|i: int|
                d.program.len() <= i < after.program.len() ==> turtle::fed(
                    #[trigger] after.program[i],
                    d.layer_feedrate,
                    d.feedrate,
                    d.layer_power,
                )
            &&& forall|i: int|
                0 <= i < d.program.len() ==> #[trigger] after.program[i] == d.program[i]
        }),
    decreases n,
{
    let once = all_drawn(bare(d), v).program;
    passes_repeat_the_path(d, v, n);
    a_path_leads_to_its_end(d, v, (Real::spec_zero(), Real::spec_zero()));
    if n > 0 {
        let k = (n - 1) as nat;
        lemma_passes(d, v, k);
        passes_repeat_the_path(d, v, k);
        lemma_paths_have_no_comments(d, v);
        let before = drawn_again(d, v, k);
        let after = drawn_again(d, v, n);
        comments_add_up(before.program, once);
        let m = once.len() as int;
        assert(n * m == k * m + m) by (nonlinear_arith)
            requires
                n == k + 1,
        ;
        assert(k * m >= 0) by (nonlinear_arith)
            requires
                k >= 0,
                m >= 0,
        ;
        assert(after.program == before.program + once);
        assert(comments(before.program) + Seq::<Seq<char>>::empty() =~= comments(before.program));
        assert(after.program.take(d.program.len() as int) =~= d.program) by {
            assert forall|i: int| 0 <= i < d.program.len() implies after.program[i]
                == d.program[i] by {
                assert(before.program.take(d.program.len() as int)[i] == before.program[i]);
            }
        }
        assert forall|i: int| d.program.len() <= i < after.program.len() implies turtle::fed(
            #[trigger] after.program[i],
            d.layer_feedrate,
            d.feedrate,
            d.layer_power,
        ) by {
            if i < before.program.len() {
                assert(after.program[i] == before.program[i]);
            } else {
                assert(after.program[i] == once[i - before.program.len()]);
            }
        }
        assert forall|i: int| 0 <= i < d.program.len() implies #[trigger] after.program[i]
            == d.program[i] by {
            assert(after.program.take(d.program.len() as int)[i] == after.program[i]);
        }
    } else {
        assert(d.program.take(d.program.len() as int) =~= d.program);
        assert(0 * once.len() == 0);
    }
}

/// A program begins in millimetres and absolute coordinates with the machine's
/// beginning, tells every shape by its name in order, and ends with the tool off
/// and the machine's end.
pub proof fn a_program_tells_its_shapes_in_order(feedrate: Real, v: Seq<Shape>)
    ensures
        ({
            let p = program_of(feedrate, v).program;
            &&& p.len() >= 7
            &&& p[0] is Millimetres && p[1] is Absolute && p[2] is ProgramBegin && p[3] is Absolute
            &&& p[p.len() - 3] is ToolOff && p[p.len() - 1] is ProgramEnd
            &&& comments(p) == v.map_values(
                |s: Shape| visitor::way(text::texts(s.names@)) + s.name@,
            )
        }),
{
    lemma_shapes_in_order(feedrate, v);
    let e = shapes_drawn(begun(feedrate), v).program;
    let tail = seq![Op::ToolOff, Op::Absolute, Op::ProgramEnd];
    lemma_no_comments(tail);
    comments_add_up(e, tail);
    assert(comments(e) + Seq::<Seq<char>>::empty() =~= comments(e));
    assert((e + tail)[e.len() as int] == tail[0]);
    assert((e + tail)[e.len() as int + 2] == tail[2]);
    assert forall|i: int| 0 <= i < 4 implies (e + tail)[i] == begun(feedrate).program[i] by {
        assert(e[i] == begun(feedrate).program[i]);
    }
}

proof fn lemma_shapes_in_order(feedrate: Real, v: Seq<Shape>)
    ensures
        ({
            let e = shapes_drawn(begun(feedrate), v);
            &&& e.program.len() >= 4
            &&& e.feedrate == feedrate
            &&& forall|i: int|
                0 <= i < 4 ==> #[trigger] e.program[i] == begun(feedrate).program[i]
            &&& comments(e.program) == v.map_values(
                |s: Shape| visitor::way(text::texts(s.names@)) + s.name@,
            )
        }),
    decreases v.len(),
{
    let name = |s: Shape| visitor::way(text::texts(s.names@)) + s.name@;
    if v.len() == 0 {
        lemma_no_comments(begun(feedrate).program);
        assert(v.map_values(name) =~= seq![]);
    } else {
        lemma_shapes_in_order(feedrate, v.drop_last());
        let e = shapes_drawn(begun(feedrate), v.drop_last());
        a_shape_is_its_path_in_passes(e, v.last());
        let after = shapes_drawn(begun(feedrate), v);
        assert forall|i: int| 0 <= i < 4 implies #[trigger] after.program[i] == begun(
            feedrate,
        ).program[i] by {
            assert(after.program.take(e.program.len() as int)[i] == after.program[i]);
            assert(e.program[i] == begun(feedrate).program[i]);
        }
        assert(v.map_values(name) =~= v.drop_last().map_values(name).push(name(v.last())));
    }
}

/// The job's own feed rate and power hold where no group gives any.
pub proof fn without_groups_nothing_is_overridden(g: LayerOverride)
    ensures
        feedrate_in(seq![]) is None,
        power_in(seq![]) is None,
        visitor::passes_in(seq![]) == 1,
        feedrate_in(seq![g]) == g.feedrate,
        power_in(seq![g]) == g.power,
        g.passes matches Some(n) ==> visitor::passes_in(seq![g]) == n,
{
    assert(seq![g].drop_last() =~= seq![]);
    reveal_with_fuel(feedrate_in, 2);
    reveal_with_fuel(power_in, 2);
    reveal_with_fuel(visitor::passes_in, 2);
}

} // verus!
