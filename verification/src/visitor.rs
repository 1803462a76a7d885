//! The way through a drawing: names, layers and the origin.
use vstd::prelude::*;

use crate::binary64::Real;
use crate::svg::{Attribute, Element, SvgNode};
use crate::svg;
use crate::text;

verus! {

/// What a conversion goes by.
#[derive(Debug)]
pub struct ConversionConfig {
    /// Tolerance for replacing curves by lines, in mm.
    pub tolerance: Real,
    /// Feed rate in mm/min.
    pub feedrate: Real,
    /// Dots per inch for pixels, picas, points and the like.
    pub dpi: Real,
    /// Where the drawing is moved to, in mm, by axis.
    pub origin: (Option<Real>, Option<Real>),
    /// An attribute that is written behind the name of a node.
    pub extra_attribute_name: Option<String>,
}

/// The origin in both axes.
pub open spec fn at_zero() -> (Option<Real>, Option<Real>) {
    (Some(Real::spec_zero()), Some(Real::spec_zero()))
}

/// The origin in both axes.
pub fn zero_origin() -> (r: (Option<Real>, Option<Real>))
    ensures
        r == at_zero(),
{
    (Some(Real::zero()), Some(Real::zero()))
}

impl Default for ConversionConfig {
    fn default() -> (r: ConversionConfig)
        ensures
            r.tolerance == (Real { bits: 0x3f60_624d_d2f1_a9fc }),
            r.feedrate == (Real { bits: 0x4072_c000_0000_0000 }),
            r.dpi == (Real { bits: 0x4058_0000_0000_0000 }),
            r.origin == at_zero(),
            r.extra_attribute_name is None,
    {
        ConversionConfig {
            tolerance: Real { bits: 0x3f60_624d_d2f1_a9fc },
            feedrate: Real { bits: 0x4072_c000_0000_0000 },
            dpi: Real { bits: 0x4058_0000_0000_0000 },
            origin: zero_origin(),
            extra_attribute_name: None,
        }
    }
}

/// What a group of the drawing says of its layer.
#[derive(Debug, Clone, Copy, PartialEq, Eq)]
pub struct LayerOverride {
    /// Feed rate in mm/min.
    pub feedrate: Option<Real>,
    /// Laser power.
    pub power: Option<Real>,
    /// How often every path is repeated.
    pub passes: Option<u32>,
}

impl LayerOverride {
    /// Whether the group says anything.
    pub fn has_any(&self) -> (r: bool)
        ensures
            r == (self.feedrate is Some || self.power is Some || self.passes is Some),
    {
        self.feedrate.is_some() || self.power.is_some() || self.passes.is_some()
    }
}

/// The number of passes in the innermost group that gives one; one if none does.
pub open spec fn passes_in(stack: Seq<LayerOverride>) -> u32
    decreases stack.len(),
{
    if stack.len() == 0 {
        1
    } else {
        match stack.last().passes {
            Some(n) => n,
            None => passes_in(stack.drop_last()),
        }
    }
}

/// The number of passes for shapes within nested groups, the innermost last.
pub fn current_passes(stack: &Vec<LayerOverride>) -> (r: u32)
    ensures
        r == passes_in(stack@),
{
    let mut i: usize = stack.len();
    assert(stack@.take(i as int) =~= stack@);
    while i > 0
        invariant
            i <= stack@.len(),
            passes_in(stack@.take(i as int)) == passes_in(stack@),
        decreases i,
    {
        assert(stack@.take(i as int).drop_last() =~= stack@.take(i - 1));
        if let Some(n) = stack[i - 1].passes {
            return n;
        }
        i = i - 1;
    }
    1
}

/// A group that says nothing of passes changes nothing; one that does decides.
pub proof fn innermost_group_decides(stack: Seq<LayerOverride>, group: LayerOverride)
    ensures
        passes_in(stack.push(group)) == (match group.passes {
            Some(n) => n,
            None => passes_in(stack),
        }),
{
    assert(stack.push(group).drop_last() =~= stack);
}

// ── Names ─────────────────────────────────────────────────────────────────────

/// The values of the attributes with a name, in brackets one behind the other.
pub open spec fn in_brackets(attributes: Seq<Attribute>, name: Seq<char>) -> Seq<char>
    decreases attributes.len(),
{
    if attributes.len() == 0 {
        seq![]
    } else {
        let rest = in_brackets(attributes.drop_last(), name);
        if attributes.last().name == name {
            rest + " ( "@ + attributes.last().value + " ) "@
        } else {
            rest
        }
    }
}

/// The name of a node: its tag, and its identifier with the values of the extra
/// attribute if it has one.
pub open spec fn name_of(n: Element, extra: Option<Seq<char>>) -> Seq<char> {
    match svg::own(n, "id"@) {
        None => n.tag,
        Some(id) => n.tag + "#"@ + id + (match extra {
            Some(name) => in_brackets(n.attributes, name),
            None => seq![],
        }),
    }
}

fn brackets(node: &SvgNode, name: &str) -> (r: String)
    ensures
        r@ == in_brackets(node@.attributes, name@),
{
    let ghost all = node@.attributes;
    let mut out = String::new();
    let mut i: usize = 0;
    assert(all.take(0) =~= seq![]);
    assert(out@ =~= in_brackets(all.take(0), name@));
    while i < node.attributes.len()
        invariant
            i <= node.attributes@.len(),
            all == node@.attributes,
            out@ == in_brackets(all.take(i as int), name@),
        decreases node.attributes@.len() - i,
    {
        let a = &node.attributes[i];
        assert(all.take(i + 1).drop_last() =~= all.take(i as int));
        assert(all.take(i + 1).last() == a@);
        if text::same(a.name.as_str(), name) {
            let start = text::joined(out.as_str(), " ( ");
            out = text::joined(text::joined(start.as_str(), a.value.as_str()).as_str(), " ) ");
        }
        i = i + 1;
    }
    assert(all.take(i as int) =~= all);
    out
}

/// The name of a node.
pub fn node_name(node: &SvgNode, extra: Option<&str>) -> (r: String)
    ensures
        r@ == name_of(node@, svg::seen(extra)),
{
    match node.attribute(None, "id") {
        None => node.tag.clone(),
        Some(id) => {
            let name = text::joined(text::joined(node.tag.as_str(), "#").as_str(), id.as_str());
            match extra {
                Some(e) => text::joined(name.as_str(), brackets(node, e).as_str()),
                None => {
                    assert(name@ + Seq::<char>::empty() =~= name@);
                    name
                },
            }
        },
    }
}

/// The names of the nodes on the way to a node, each followed by an arrow.
pub open spec fn way(names: Seq<Seq<char>>) -> Seq<char>
    decreases names.len(),
{
    if names.len() == 0 {
        seq![]
    } else {
        way(names.drop_last()) + names.last() + " > "@
    }
}

/// The comment for a node: the way to it and its name.
pub fn comment(names: &Vec<String>, name: &str) -> (r: String)
    ensures
        r@ == way(text::texts(names@)) + name@,
{
    let mut out = String::new();
    let mut i: usize = 0;
    let ghost all = text::texts(names@);
    assert(all.take(0) =~= seq![]);
    assert(out@ =~= way(all.take(0)));
    while i < names.len()
        invariant
            i <= names@.len(),
            all == text::texts(names@),
            out@ == way(all.take(i as int)),
        decreases names@.len() - i,
    {
        out = text::joined(
            text::joined(out.as_str(), names[i].as_str()).as_str(),
            " > ",
        );
        assert(all.take(i + 1).drop_last() =~= all.take(i as int));
        i = i + 1;
    }
    assert(all.take(i as int) =~= all);
    text::joined(out.as_str(), name)
}

// ── Origin ────────────────────────────────────────────────────────────────────

/// How far the drawing is moved along an axis.
#[derive(Debug, Clone, Copy, PartialEq, Eq)]
pub enum Shift {
    /// Not at all.
    Stay,
    /// By the first number less the second.
    By(Real, Real),
}

/// How far the drawing is moved: its lowest coordinate comes to the origin, along
/// each axis for which there is one.
pub open spec fn shifts(origin: (Option<Real>, Option<Real>), lowest: (Real, Real)) -> (
    Shift,
    Shift,
) {
    (
        match origin.0 {
            Some(x) => Shift::By(x, lowest.0),
            None => Shift::Stay,
        },
        match origin.1 {
            Some(y) => Shift::By(y, lowest.1),
            None => Shift::Stay,
        },
    )
}

/// Whether the extents of the drawing are needed to place it.
pub fn needs_extents(origin: (Option<Real>, Option<Real>)) -> (r: bool)
    ensures
        r == (origin.0 is Some || origin.1 is Some),
        !r ==> forall|lowest: (Real, Real)|
            #[trigger] shifts(origin, lowest) == (Shift::Stay, Shift::Stay),
{
    origin.0.is_some() || origin.1.is_some()
}

/// How far the drawing is moved, given its lowest coordinates.
pub fn origin_shift(origin: (Option<Real>, Option<Real>), lowest: (Real, Real)) -> (r: (
    Shift,
    Shift,
))
    ensures
        r == shifts(origin, lowest),
{
    let x = match origin.0 {
        Some(v) => Shift::By(v, lowest.0),
        None => Shift::Stay,
    };
    let y = match origin.1 {
        Some(v) => Shift::By(v, lowest.1),
        None => Shift::Stay,
    };
    (x, y)
}

// ── Laws ──────────────────────────────────────────────────────────────────────

/// The way through some nodes and then others is the one way behind the other;
/// each node is its name and an arrow.
pub proof fn ways_are_put_together(a: Seq<Seq<char>>, b: Seq<Seq<char>>, name: Seq<char>)
    ensures
        way(seq![]) == Seq::<char>::empty(),
        way(seq![name]) == name + " > "@,
        way(a + b) == way(a) + way(b),
    decreases b.len(),
{
    assert(seq![name].drop_last() =~= seq![]);
    reveal_with_fuel(way, 2);
    assert(way(seq![name]) =~= name + " > "@);
    if b.len() == 0 {
        assert(a + b =~= a);
        assert(way(a) + way(b) =~= way(a));
    } else {
        ways_are_put_together(a, b.drop_last(), name);
        assert((a + b).drop_last() =~= a + b.drop_last());
        assert((a + b).last() == b.last());
        assert(way(a + b) =~= way(a) + way(b));
    }
}

/// A node is named by its tag; with an identifier the tag, a hash and the
/// identifier begin the name, and without an extra attribute they are all of it.
pub proof fn names_begin_with_the_tag(n: Element, extra: Option<Seq<char>>)
    ensures
        n.tag.is_prefix_of(name_of(n, extra)),
        svg::own(n, "id"@) is None ==> name_of(n, extra) == n.tag,
        svg::own(n, "id"@) matches Some(id) ==> {
            &&& (n.tag + "#"@ + id).is_prefix_of(name_of(n, extra))
            &&& extra is None ==> name_of(n, extra) == n.tag + "#"@ + id
        },
{
    let name = name_of(n, extra);
    assert(name.take(n.tag.len() as int) =~= n.tag);
    if let Some(id) = svg::own(n, "id"@) {
        let start = n.tag + "#"@ + id;
        assert(name.take(start.len() as int) =~= start);
        if extra is None {
            assert(start + Seq::<char>::empty() =~= start);
        }
    }
}

/// Attributes of another name leave no brackets; one of the name puts its value
/// in brackets at the end.
pub proof fn brackets_hold_the_values(v: Seq<Attribute>, a: Attribute, name: Seq<char>)
    ensures
        in_brackets(seq![], name) == Seq::<char>::empty(),
        a.name != name ==> in_brackets(v.push(a), name) == in_brackets(v, name),
        a.name == name ==> in_brackets(v.push(a), name) == in_brackets(v, name) + (" ( "@ + a.value
            + " ) "@),
{
    assert(v.push(a).drop_last() =~= v);
    if a.name == name {
        assert(in_brackets(v.push(a), name) =~= in_brackets(v, name) + (" ( "@ + a.value
            + " ) "@));
    }
}

/// Along an axis with an origin the drawing is moved by the origin less its own
/// lowest coordinate along that axis; along another it stays, whatever the other
/// axis does.
pub proof fn axes_are_moved_on_their_own(
    origin: (Option<Real>, Option<Real>),
    lowest: (Real, Real),
)
    ensures
        origin.0 matches Some(x) ==> shifts(origin, lowest).0 == Shift::By(x, lowest.0),
        origin.1 matches Some(y) ==> shifts(origin, lowest).1 == Shift::By(y, lowest.1),
        origin.0 is None ==> shifts(origin, lowest).0 is Stay,
        origin.1 is None ==> shifts(origin, lowest).1 is Stay,
        at_zero().0 == Some(Real { bits: 0 }) && at_zero().1 == Some(Real { bits: 0 }),
{
}

/// Where no group says how often its paths are cut, they are cut once.
pub proof fn paths_are_cut_once_unless_told(stack: Seq<LayerOverride>)
    requires
        forall|i: int| 0 <= i < stack.len() ==> (#[trigger] stack[i]).passes is None,
    ensures
        passes_in(stack) == 1,
    decreases stack.len(),
{
    if stack.len() > 0 {
        assert(stack.last() == stack[stack.len() - 1]);
        assert forall|i: int| 0 <= i < stack.drop_last().len() implies (
        #[trigger] stack.drop_last()[i]).passes is None by {
            assert(stack.drop_last()[i] == stack[i]);
        }
        paths_are_cut_once_unless_told(stack.drop_last());
    }
}

} // verus!
