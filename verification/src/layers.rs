//! The layers of a drawing and what the user overrides for each.
use vstd::prelude::*;

use crate::binary64::Real;
use crate::message::{Glyph, Message};
use crate::message;
use crate::text;

verus! {

/// A layer as the drawing declares it.
#[derive(Debug)]
pub struct SvgLayerInfo {
    /// The name to show.
    pub label: String,
    /// The name to find the layer by.
    pub key: String,
    pub svg_feedrate: Option<Real>,
    pub svg_power: Option<Real>,
    pub svg_passes: Option<u32>,
}

/// What is overridden for a layer.
#[derive(Debug, Clone, Copy, PartialEq, Eq)]
pub struct LayerOverrideOptions {
    pub feedrate: Option<Real>,
    pub power: Option<Real>,
    pub passes: Option<u32>,
}

/// How a layer is drawn.
#[derive(Debug, Clone, Copy, PartialEq, Eq, Structural)]
pub enum LayerMode {
    Default,
    Outline,
    Fill,
}

impl LayerMode {
    /// The name of a mode.
    pub open spec fn name(self) -> Seq<char> {
        match self {
            LayerMode::Default => "Default"@,
            LayerMode::Outline => "Outline"@,
            LayerMode::Fill => "Fill"@,
        }
    }

    /// The name of a mode.
    pub fn label(&self) -> (r: &'static str)
        ensures
            r@ == self.name(),
    {
        match self {
            LayerMode::Default => "Default",
            LayerMode::Outline => "Outline",
            LayerMode::Fill => "Fill",
        }
    }

    /// The mode behind this one; behind the last comes the first.
    pub open spec fn following(self) -> LayerMode {
        match self {
            LayerMode::Default => LayerMode::Outline,
            LayerMode::Outline => LayerMode::Fill,
            LayerMode::Fill => LayerMode::Default,
        }
    }

    /// The mode behind this one; behind the last comes the first.
    pub fn next(&self) -> (r: LayerMode)
        ensures
            r == self.following(),
    {
        match self {
            LayerMode::Default => LayerMode::Outline,
            LayerMode::Outline => LayerMode::Fill,
            LayerMode::Fill => LayerMode::Default,
        }
    }
}

/// Three steps lead through all modes and back.
pub proof fn modes_form_a_ring(m: LayerMode)
    ensures
        m.following() != m,
        m.following().following() != m,
        m.following().following().following() == m,
{
}

/// A layer with its overrides.
#[derive(Debug)]
pub struct TuiLayerSettings {
    /// The name to show.
    pub label: String,
    /// The name to find the layer by.
    pub key: String,
    /// Feed rate in mm/min; without one, that of the drawing or of the settings.
    pub feedrate: Option<Real>,
    /// Laser power; without one, that of the drawing or of the settings.
    pub power: Option<Real>,
    /// Number of passes; without one, that of the drawing or one.
    pub passes: Option<u32>,
    /// How the layer is drawn.
    pub mode: LayerMode,
    /// What the drawing declares.
    pub svg_feedrate: Option<Real>,
    pub svg_power: Option<Real>,
    pub svg_passes: Option<u32>,
}

/// A layer, with texts by their characters.
pub struct Layer {
    pub label: Seq<char>,
    pub key: Seq<char>,
    pub feedrate: Option<Real>,
    pub power: Option<Real>,
    pub passes: Option<u32>,
    pub mode: LayerMode,
    pub svg_feedrate: Option<Real>,
    pub svg_power: Option<Real>,
    pub svg_passes: Option<u32>,
}

impl View for TuiLayerSettings {
    type V = Layer;

    open spec fn view(&self) -> Layer {
        Layer {
            label: self.label@,
            key: self.key@,
            feedrate: self.feedrate,
            power: self.power,
            passes: self.passes,
            mode: self.mode,
            svg_feedrate: self.svg_feedrate,
            svg_power: self.svg_power,
            svg_passes: self.svg_passes,
        }
    }
}

pub open spec fn layers(v: Seq<TuiLayerSettings>) -> Seq<Layer> {
    v.map_values(|l: TuiLayerSettings| l@)
}

/// A number that is at most `max`.
pub open spec fn capped(v: Option<Real>, max: Real) -> Option<Real> {
    match v {
        Some(n) => Some(n.lesser(max)),
        None => None,
    }
}

fn cap(v: Option<Real>, max: Real) -> (r: Option<Real>)
    ensures
        r == capped(v, max),
{
    match v {
        Some(n) => Some(n.min(max)),
        None => None,
    }
}

/// The first of two values that is there.
pub open spec fn either<T>(a: Option<T>, b: Option<T>) -> Option<T> {
    if a is Some {
        a
    } else {
        b
    }
}

/// A layer as it starts: with the values of the drawing, capped.
pub open spec fn layer_of(info: SvgLayerInfo, max_feedrate: Real, max_power: Real) -> Layer {
    Layer {
        label: info.label@,
        key: info.key@,
        feedrate: capped(info.svg_feedrate, max_feedrate),
        power: capped(info.svg_power, max_power),
        passes: info.svg_passes,
        mode: LayerMode::Default,
        svg_feedrate: info.svg_feedrate,
        svg_power: info.svg_power,
        svg_passes: info.svg_passes,
    }
}

impl Layer {
    pub open spec fn overrides(self) -> LayerOverrideOptions {
        LayerOverrideOptions { feedrate: self.feedrate, power: self.power, passes: self.passes }
    }

    /// The layer with all overrides set back to the values of the drawing, and
    /// drawn in the default mode.
    pub open spec fn cleared(self) -> Layer {
        Layer {
            feedrate: self.svg_feedrate,
            power: self.svg_power,
            passes: self.svg_passes,
            mode: LayerMode::Default,
            ..self
        }
    }

    /// What is in effect for the layer.
    pub open spec fn in_effect(self, global_feedrate: Real, global_power: Real) -> (
        Real,
        Real,
        u32,
    ) {
        (
            match either(self.feedrate, self.svg_feedrate) {
                Some(v) => v,
                None => global_feedrate,
            },
            match either(self.power, self.svg_power) {
                Some(v) => v,
                None => global_power,
            },
            match either(self.passes, self.svg_passes) {
                Some(v) => v,
                None => 1,
            },
        )
    }

    pub open spec fn summary(self, global_feedrate: Real, global_power: Real) -> Seq<Glyph> {
        let (f, p, n) = self.in_effect(global_feedrate, global_power);
        message::plain("F"@) + message::exact(f, 0) + message::plain(" S"@) + message::exact(p, 0)
            + message::plain(" ×"@) + message::count(n as nat)
    }
}

impl LayerOverrideOptions {
    /// Whether anything is overridden.
    pub open spec fn any(self) -> bool {
        self.feedrate is Some || self.power is Some || self.passes is Some
    }

    /// Whether anything is overridden.
    pub fn has_any(&self) -> (r: bool)
        ensures
            r == self.any(),
    {
        self.feedrate.is_some() || self.power.is_some() || self.passes.is_some()
    }
}

impl TuiLayerSettings {
    /// A layer of a drawing, with its values capped.
    pub fn from_svg_layer(info: &SvgLayerInfo, max_feedrate: Real, max_power: Real) -> (r:
        TuiLayerSettings)
        ensures
            r@ == layer_of(*info, max_feedrate, max_power),
    {
        TuiLayerSettings {
            label: info.label.clone(),
            key: info.key.clone(),
            feedrate: cap(info.svg_feedrate, max_feedrate),
            power: cap(info.svg_power, max_power),
            passes: info.svg_passes,
            mode: LayerMode::Default,
            svg_feedrate: info.svg_feedrate,
            svg_power: info.svg_power,
            svg_passes: info.svg_passes,
        }
    }

    /// What is overridden, for the conversion.
    pub fn to_override_options(&self) -> (r: LayerOverrideOptions)
        ensures
            r == self@.overrides(),
    {
        LayerOverrideOptions { feedrate: self.feedrate, power: self.power, passes: self.passes }
    }

    /// A short summary of what is in effect.
    pub fn summary(&self, global_feedrate: Real, global_power: Real) -> (r: Message)
        ensures
            r@ == self@.summary(global_feedrate, global_power),
    {
        let f = match (self.feedrate, self.svg_feedrate) {
            (Some(v), _) => v,
            (None, Some(v)) => v,
            (None, None) => global_feedrate,
        };
        let p = match (self.power, self.svg_power) {
            (Some(v), _) => v,
            (None, Some(v)) => v,
            (None, None) => global_power,
        };
        let n: u32 = match (self.passes, self.svg_passes) {
            (Some(v), _) => v,
            (None, Some(v)) => v,
            (None, None) => 1,
        };
        Message::text("F").then_real(f, 0).then_text(" S").then_real(p, 0).then_text(
            " ×",
        ).then_count(n as u64)
    }

    /// Set all overrides back to the values of the drawing, and the mode to the
    /// default.
    pub fn clear(&mut self)
        ensures
            final(self)@ == old(self)@.cleared(),
    {
        self.feedrate = self.svg_feedrate;
        self.power = self.svg_power;
        self.passes = self.svg_passes;
        self.mode = LayerMode::Default;
    }

    /// The name of the mode.
    pub fn mode_label(&self) -> (r: &'static str)
        ensures
            r@ == self@.mode.name(),
    {
        self.mode.label()
    }

    /// The value of an override as an editable text; nothing for a field that
    /// does not exist.
    pub fn field_value(&self, field: usize) -> (r: Option<Message>)
        ensures
            shown(r) == self@.field(field as int),
    {
        let none = Message::new();
        if field == 0 {
            Some(
                match self.feedrate {
                    Some(v) => rounded(v),
                    None => none,
                },
            )
        } else if field == 1 {
            Some(
                match self.power {
                    Some(v) => rounded(v),
                    None => none,
                },
            )
        } else if field == 2 {
            Some(
                match self.passes {
                    Some(n) => Message::text(text::decimal_of(n as u64).as_str()),
                    None => none,
                },
            )
        } else {
            None
        }
    }

    /// Enter a text into an override: nothing removes it, a number sets it,
    /// capped.  `number` is what reading the trimmed text as a number gave.
    pub fn set_field(
        &mut self,
        field: usize,
        raw: &str,
        number: Option<Real>,
        max_feedrate: Real,
        max_power: Real,
    ) -> (r: Result<(), Message>)
        ensures
            (final(self)@, complaint(r)) == entered(
                old(self)@,
                field as int,
                raw@,
                number,
                max_feedrate,
                max_power,
            ),
    {
        let buf = text::trim(raw);
        let empty = text::is_empty(buf.as_str());
        let valid = match number {
            Some(v) => Real::zero().at_most(v),
            None => false,
        };
        if field == 0 {
            if empty {
                self.feedrate = None;
            } else if !valid {
                return Err(
                    Message::text("Invalid feedrate (0..").then_real(max_feedrate, 0).then_text(")"),
                );
            } else {
                self.feedrate = cap(number, max_feedrate);
            }
        } else if field == 1 {
            if empty {
                self.power = None;
            } else if !valid {
                return Err(
                    Message::text("Invalid power (0..").then_real(max_power, 0).then_text(")"),
                );
            } else {
                self.power = cap(number, max_power);
            }
        } else if field == 2 {
            if empty {
                self.passes = None;
            } else {
                let passes: u64 = match text::parse_natural(buf.as_str(), 0xffff_ffff) {
                    Some(n) => n,
                    None => 0,
                };
                if passes == 0 {
                    return Err(Message::text("Passes must be a whole number ≥ 1"));
                }
                self.passes = Some(passes as u32);
            }
        }
        Ok(())
    }
}

fn rounded(v: Real) -> (r: Message)
    ensures
        r@ == message::exact(v, 0),
{
    let r = Message::new().then_real(v, 0);
    assert(Seq::<Glyph>::empty() + message::exact(v, 0) == message::exact(v, 0));
    r
}

/// The view of an optional message.
pub open spec fn shown(m: Option<Message>) -> Option<Seq<Glyph>> {
    match m {
        Some(v) => Some(v@),
        None => None,
    }
}

/// The complaint that an answer holds.
pub open spec fn complaint(r: Result<(), Message>) -> Option<Seq<Glyph>> {
    match r {
        Ok(_) => None,
        Err(e) => Some(e@),
    }
}

impl Layer {
    /// The value of an override as an editable text.
    pub open spec fn field(self, field: int) -> Option<Seq<Glyph>> {
        let number = |v: Option<Real>|
            match v {
                Some(n) => message::exact(n, 0),
                None => seq![],
            };
        if field == 0 {
            Some(number(self.feedrate))
        } else if field == 1 {
            Some(number(self.power))
        } else if field == 2 {
            Some(
                match self.passes {
                    Some(n) => message::count(n as nat),
                    None => seq![],
                },
            )
        } else {
            None
        }
    }
}

/// A number that is at least zero.
pub open spec fn not_negative(v: Option<Real>) -> bool {
    v matches Some(n) && Real::spec_zero().upto(n)
}

/// The layer after a text was entered into an override, and the complaint if it
/// was refused.
pub open spec fn entered(
    l: Layer,
    field: int,
    raw: Seq<char>,
    number: Option<Real>,
    max_feedrate: Real,
    max_power: Real,
) -> (Layer, Option<Seq<Glyph>>) {
    let t = text::trimmed(raw);
    if field == 0 {
        if t.len() == 0 {
            (Layer { feedrate: None, ..l }, None)
        } else if not_negative(number) {
            (Layer { feedrate: capped(number, max_feedrate), ..l }, None)
        } else {
            (
                l,
                Some(
                    message::plain("Invalid feedrate (0.."@) + message::exact(max_feedrate, 0)
                        + message::plain(")"@),
                ),
            )
        }
    } else if field == 1 {
        if t.len() == 0 {
            (Layer { power: None, ..l }, None)
        } else if not_negative(number) {
            (Layer { power: capped(number, max_power), ..l }, None)
        } else {
            (
                l,
                Some(
                    message::plain("Invalid power (0.."@) + message::exact(max_power, 0)
                        + message::plain(")"@),
                ),
            )
        }
    } else if field == 2 {
        if t.len() == 0 {
            (Layer { passes: None, ..l }, None)
        } else {
            match text::natural_upto(t, 0xffff_ffff) {
                Some(n) if n >= 1 => (Layer { passes: Some(n as u32), ..l }, None),
                _ => (l, Some(message::plain("Passes must be a whole number ≥ 1"@))),
            }
        }
    } else {
        (l, None)
    }
}

// ── The overrides of all layers ───────────────────────────────────────────────

/// The overrides by the keys of their layers.  Where two layers have one key,
/// the later one counts.
pub open spec fn override_map(v: Seq<Layer>) -> Map<Seq<char>, LayerOverrideOptions>
    decreases v.len(),
{
    if v.len() == 0 {
        Map::empty()
    } else {
        let rest = override_map(v.drop_last());
        if v.last().overrides().any() {
            rest.insert(v.last().key, v.last().overrides())
        } else {
            rest
        }
    }
}

/// The map that a list of entries stands for.
pub open spec fn as_map(v: Seq<(String, LayerOverrideOptions)>) -> Map<
    Seq<char>,
    LayerOverrideOptions,
>
    decreases v.len(),
{
    if v.len() == 0 {
        Map::empty()
    } else {
        as_map(v.drop_last()).insert(v.last().0@, v.last().1)
    }
}

/// No key occurs twice.
pub open spec fn keys_differ(v: Seq<(String, LayerOverrideOptions)>) -> bool {
    forall|i: int, j: int| 0 <= i < j < v.len() ==> (#[trigger] v[i]).0@ != (#[trigger] v[j]).0@
}

proof fn lemma_as_map(v: Seq<(String, LayerOverrideOptions)>)
    requires
        keys_differ(v),
    ensures
        forall|i: int|
            0 <= i < v.len() ==> as_map(v).dom().contains((#[trigger] v[i]).0@) && as_map(v)[v[i].0@]
                == v[i].1,
        forall|k: Seq<char>| #[trigger]
            as_map(v).dom().contains(k) ==> exists|i: int| 0 <= i < v.len() && (#[trigger] v[i]).0@ == k,
    decreases v.len(),
{
    if v.len() > 0 {
        let w = v.drop_last();
        assert forall|i: int, j: int| 0 <= i < j < w.len() implies (#[trigger] w[i]).0@ != (
        #[trigger] w[j]).0@ by {
            assert(w[i] == v[i] && w[j] == v[j]);
        }
        lemma_as_map(w);
        assert(v[v.len() - 1] == v.last());
        assert forall|i: int| 0 <= i < v.len() implies as_map(v).dom().contains(
            (#[trigger] v[i]).0@,
        ) && as_map(v)[v[i].0@] == v[i].1 by {
            if i < w.len() {
                assert(w[i] == v[i]);
                assert(v[i].0@ != v[v.len() - 1].0@);
            }
        }
        assert forall|k: Seq<char>| #[trigger] as_map(v).dom().contains(k) implies exists|i: int|
            0 <= i < v.len() && (#[trigger] v[i]).0@ == k by {
            if k == v.last().0@ {
                assert(v[v.len() - 1].0@ == k);
            } else {
                assert(as_map(w).dom().contains(k));
                let i = choose|i: int| 0 <= i < w.len() && (#[trigger] w[i]).0@ == k;
                assert(v[i].0@ == k);
            }
        }
    }
}

/// Put an entry into a list that stands for a map.
fn put(out: &mut Vec<(String, LayerOverrideOptions)>, key: String, options: LayerOverrideOptions)
    requires
        keys_differ(old(out)@),
    ensures
        keys_differ(final(out)@),
        as_map(final(out)@) == as_map(old(out)@).insert(key@, options),
{
    let ghost before = out@;
    let ghost k = key@;
    let mut i: usize = 0;
    while i < out.len()
        invariant
            i <= out@.len(),
            out@ == before,
            before == old(out)@,
            k == key@,
            keys_differ(before),
            forall|j: int| 0 <= j < i ==> (#[trigger] before[j]).0@ != k,
        decreases out@.len() - i,
    {
        if text::same(out[i].0.as_str(), key.as_str()) {
            let kept = out[i].0.clone();
            let entry = (kept, options);
            out.set(i, entry);
            proof {
                let after = out@;
                assert forall|a: int, b: int| 0 <= a < b < after.len() implies (#[trigger] after[a]).0@
                    != (#[trigger] after[b]).0@ by {
                    assert(after[a].0@ == before[a].0@);
                    assert(after[b].0@ == before[b].0@);
                }
                lemma_as_map(before);
                lemma_as_map(after);
                assert(after[i as int].0@ == k);
                lemma_same_entries(before, after, i as int, k, options);
            }
            return;
        }
        i = i + 1;
    }
    out.push((key, options));
    assert(out@.drop_last() == before);
    assert forall|a: int, b: int| 0 <= a < b < out@.len() implies (#[trigger] out@[a]).0@ != (
    #[trigger] out@[b]).0@ by {
        assert(out@[a] == before[a]);
        if b < before.len() {
            assert(out@[b] == before[b]);
        }
    }
}

proof fn lemma_same_entries(
    before: Seq<(String, LayerOverrideOptions)>,
    after: Seq<(String, LayerOverrideOptions)>,
    i: int,
    k: Seq<char>,
    options: LayerOverrideOptions,
)
    requires
        keys_differ(before),
        keys_differ(after),
        0 <= i < before.len(),
        after == before.update(i, after[i]),
        after[i].0@ == k,
        before[i].0@ == k,
        after[i].1 == options,
    ensures
        as_map(after) == as_map(before).insert(k, options),
{
    lemma_as_map(before);
    lemma_as_map(after);
    let m = as_map(before).insert(k, options);
    assert forall|x: Seq<char>| as_map(after).dom().contains(x) <==> m.dom().contains(x) by {
        if as_map(after).dom().contains(x) {
            let j = choose|j: int| 0 <= j < after.len() && (#[trigger] after[j]).0@ == x;
            if j != i {
                assert(before[j].0@ == x);
            }
        }
        if m.dom().contains(x) && x != k {
            let j = choose|j: int| 0 <= j < before.len() && (#[trigger] before[j]).0@ == x;
            assert(after[j].0@ == x);
        }
        if x == k {
            assert(after[i].0@ == k);
        }
    }
    assert forall|x: Seq<char>| #[trigger] as_map(after).dom().contains(x) implies as_map(after)[x]
        == m[x] by {
        let j = choose|j: int| 0 <= j < after.len() && (#[trigger] after[j]).0@ == x;
        assert(as_map(after)[after[j].0@] == after[j].1);
        if j != i {
            assert(before[j] == after[j]);
            assert(as_map(before)[before[j].0@] == before[j].1);
            if j < i {
                assert(before[j].0@ != before[i].0@);
            } else {
                assert(before[i].0@ != before[j].0@);
            }
        }
    }
    assert(as_map(after) =~= m);
}

/// The overrides of all layers for which something is overridden, by key.
pub fn layer_override_map(v: &Vec<TuiLayerSettings>) -> (r: Vec<(String, LayerOverrideOptions)>)
    ensures
        keys_differ(r@),
        as_map(r@) == override_map(layers(v@)),
{
    let mut out: Vec<(String, LayerOverrideOptions)> = Vec::new();
    let ghost all = layers(v@);
    let mut i: usize = 0;
    assert(all.take(0) == Seq::<Layer>::empty());
    while i < v.len()
        invariant
            i <= v@.len(),
            all == layers(v@),
            keys_differ(out@),
            as_map(out@) == override_map(all.take(i as int)),
        decreases v@.len() - i,
    {
        assert(all.take(i + 1).drop_last() == all.take(i as int));
        assert(all.take(i + 1).last() == v@[i as int]@);
        let options = v[i].to_override_options();
        if options.has_any() {
            put(&mut out, v[i].key.clone(), options);
        }
        i = i + 1;
    }
    assert(all.take(i as int) == all);
    out
}

// ── Laws ──────────────────────────────────────────────────────────────────────

/// A refused text leaves the layer as it is.
pub proof fn refused_override_changes_nothing(
    l: Layer,
    field: int,
    raw: Seq<char>,
    number: Option<Real>,
    max_feedrate: Real,
    max_power: Real,
)
    ensures
        entered(l, field, raw, number, max_feedrate, max_power).1 is Some ==> entered(
            l,
            field,
            raw,
            number,
            max_feedrate,
            max_power,
        ).0 == l,
{
}

/// An override that was entered as a number is at most the limit, where the
/// limit is a number.
pub proof fn entered_override_is_capped(
    l: Layer,
    raw: Seq<char>,
    number: Option<Real>,
    max_feedrate: Real,
    max_power: Real,
)
    requires
        not_negative(number),
        text::trimmed(raw).len() > 0,
        !max_feedrate.nan(),
        !max_power.nan(),
    ensures
        entered(l, 0, raw, number, max_feedrate, max_power).0.feedrate matches Some(f) && f.upto(
            max_feedrate,
        ),
        entered(l, 1, raw, number, max_feedrate, max_power).0.power matches Some(p) && p.upto(
            max_power,
        ),
{
}

/// A layer without overrides has no entry of its own.
pub proof fn bare_layer_has_no_entry(v: Seq<Layer>, l: Layer)
    requires
        !l.overrides().any(),
    ensures
        override_map(v.push(l)) == override_map(v),
{
    assert(v.push(l).drop_last() == v);
}

/// A number from zero up to the limit is stored as it was entered, and one above
/// the limit as the limit.
pub proof fn a_number_is_stored_as_entered(
    l: Layer,
    raw: Seq<char>,
    v: Real,
    max_feedrate: Real,
    max_power: Real,
)
    requires
        text::trimmed(raw).len() > 0,
        Real::spec_zero().upto(v),
    ensures
        v.upto(max_feedrate) ==> entered(l, 0, raw, Some(v), max_feedrate, max_power) == (
            (Layer { feedrate: Some(v), ..l }),
            None::<Seq<Glyph>>,
        ),
        max_feedrate.below(v) ==> entered(l, 0, raw, Some(v), max_feedrate, max_power) == (
            (Layer { feedrate: Some(max_feedrate), ..l }),
            None::<Seq<Glyph>>,
        ),
        v.upto(max_power) ==> entered(l, 1, raw, Some(v), max_feedrate, max_power) == (
            (Layer { power: Some(v), ..l }),
            None::<Seq<Glyph>>,
        ),
        max_power.below(v) ==> entered(l, 1, raw, Some(v), max_feedrate, max_power) == (
            (Layer { power: Some(max_power), ..l }),
            None::<Seq<Glyph>>,
        ),
{
}

/// A number below zero, or none at all, is refused for the feed rate and the
/// power.
pub proof fn what_is_below_zero_is_refused(
    l: Layer,
    raw: Seq<char>,
    number: Option<Real>,
    max_feedrate: Real,
    max_power: Real,
)
    requires
        text::trimmed(raw).len() > 0,
        number matches Some(v) ==> v.nan() || v.below(Real::spec_zero()),
    ensures
        entered(l, 0, raw, number, max_feedrate, max_power).1 is Some,
        entered(l, 1, raw, number, max_feedrate, max_power).1 is Some,
{
}

/// An empty text removes the override of its field and leaves the others.
pub proof fn an_empty_text_removes_the_override(
    l: Layer,
    field: int,
    raw: Seq<char>,
    number: Option<Real>,
    max_feedrate: Real,
    max_power: Real,
)
    requires
        text::trimmed(raw).len() == 0,
    ensures
        ({
            let (after, complaint) = entered(l, field, raw, number, max_feedrate, max_power);
            &&& complaint is None
            &&& after.feedrate == (if field == 0 {
                None
            } else {
                l.feedrate
            })
            &&& after.power == (if field == 1 {
                None
            } else {
                l.power
            })
            &&& after.passes == (if field == 2 {
                None
            } else {
                l.passes
            })
            &&& after.mode == l.mode && after.key == l.key && after.label == l.label
            &&& after.svg_feedrate == l.svg_feedrate && after.svg_power == l.svg_power
                && after.svg_passes == l.svg_passes
        }),
{
}

/// Passes are stored as the whole number that was entered, and only from one up.
pub proof fn passes_are_stored_as_entered(
    l: Layer,
    raw: Seq<char>,
    number: Option<Real>,
    max_feedrate: Real,
    max_power: Real,
)
    requires
        text::trimmed(raw).len() > 0,
    ensures
        ({
            let (after, complaint) = entered(l, 2, raw, number, max_feedrate, max_power);
            let t = text::trimmed(raw);
            match text::natural_upto(t, 0xffff_ffff) {
                Some(n) => if n == 0 {
                    complaint is Some
                } else {
                    complaint is None && after.passes is Some && after.passes->0 == n
                },
                None => complaint is Some,
            }
        }),
{
}

/// A layer starts with the values of the drawing as they are, up to the limits,
/// and with none where the drawing has none.
pub proof fn a_layer_starts_as_drawn(info: SvgLayerInfo, max_feedrate: Real, max_power: Real)
    ensures
        ({
            let l = layer_of(info, max_feedrate, max_power);
            &&& l.label == info.label@ && l.key == info.key@ && l.mode is Default
            &&& l.svg_feedrate == info.svg_feedrate && l.svg_power == info.svg_power
                && l.svg_passes == info.svg_passes
            &&& l.passes == info.svg_passes
            &&& info.svg_feedrate is None ==> l.feedrate is None
            &&& info.svg_power is None ==> l.power is None
            &&& info.svg_feedrate matches Some(v) ==> {
                &&& v.upto(max_feedrate) ==> l.feedrate == Some(v)
                &&& max_feedrate.below(v) ==> l.feedrate == Some(max_feedrate)
            }
            &&& info.svg_power matches Some(v) ==> {
                &&& v.upto(max_power) ==> l.power == Some(v)
                &&& max_power.below(v) ==> l.power == Some(max_power)
            }
        }),
{
}

/// What is overridden is in effect; else what the drawing says; else what the
/// settings say, in one pass.
pub proof fn the_nearest_value_is_in_effect(l: Layer, feedrate: Real, power: Real)
    ensures
        ({
            let (f, p, n) = l.in_effect(feedrate, power);
            &&& l.feedrate matches Some(v) ==> f == v
            &&& l.feedrate is None ==> (l.svg_feedrate matches Some(v) ==> f == v)
            &&& l.feedrate is None && l.svg_feedrate is None ==> f == feedrate
            &&& l.power matches Some(v) ==> p == v
            &&& l.power is None ==> (l.svg_power matches Some(v) ==> p == v)
            &&& l.power is None && l.svg_power is None ==> p == power
            &&& l.passes matches Some(v) ==> n == v
            &&& l.passes is None ==> (l.svg_passes matches Some(v) ==> n == v)
            &&& l.passes is None && l.svg_passes is None ==> n == 1
        }),
{
}

/// A cleared layer has the values of the drawing in effect, whatever was
/// overridden, and keeps its names.
pub proof fn a_cleared_layer_is_as_drawn(l: Layer, feedrate: Real, power: Real)
    ensures
        ({
            let after = l.cleared();
            &&& after.overrides().feedrate == l.svg_feedrate
            &&& after.overrides().power == l.svg_power
            &&& after.overrides().passes == l.svg_passes
            &&& after.mode is Default && after.key == l.key && after.label == l.label
            &&& after.cleared() == after
            &&& after.overrides().any() <==> (l.svg_feedrate is Some || l.svg_power is Some
                || l.svg_passes is Some)
        }),
{
}

/// Whether a layer goes by a key and something is overridden for it.
pub open spec fn overridden(l: Layer, key: Seq<char>) -> bool {
    l.key == key && (l.feedrate is Some || l.power is Some || l.passes is Some)
}

/// A layer with an override has an entry under its key with just its overrides,
/// unless a later one with an override has the same key; a key without such a
/// layer has no entry.
pub proof fn each_layer_is_overridden_by_its_key(v: Seq<Layer>, key: Seq<char>)
    ensures
        (forall|i: int| 0 <= i < v.len() ==> !#[trigger] overridden(v[i], key)) ==> !override_map(
            v,
        ).dom().contains(key),
        forall|i: int|
            0 <= i < v.len() && #[trigger] overridden(v[i], key) && (forall|j: int|
                i < j < v.len() ==> !#[trigger] overridden(v[j], key)) ==> {
                &&& override_map(v).dom().contains(key)
                &&& override_map(v)[key].feedrate == v[i].feedrate
                &&& override_map(v)[key].power == v[i].power
                &&& override_map(v)[key].passes == v[i].passes
            },
    decreases v.len(),
{
    if v.len() > 0 {
        let w = v.drop_last();
        let n = v.len() - 1;
        each_layer_is_overridden_by_its_key(w, key);
        assert(v[n] == v.last());
        if forall|i: int| 0 <= i < v.len() ==> !#[trigger] overridden(v[i], key) {
            assert(!overridden(v[n], key));
            assert forall|i: int| 0 <= i < w.len() implies !#[trigger] overridden(w[i], key) by {
                assert(!overridden(v[i], key));
            }
        }
        assert forall|i: int|
            0 <= i < v.len() && #[trigger] overridden(v[i], key) && (forall|j: int|
                i < j < v.len() ==> !#[trigger] overridden(v[j], key)) implies {
            &&& override_map(v).dom().contains(key)
            &&& override_map(v)[key].feedrate == v[i].feedrate
            &&& override_map(v)[key].power == v[i].power
            &&& override_map(v)[key].passes == v[i].passes
        } by {
            if i < n {
                assert(overridden(w[i], key));
                assert(!overridden(v[n], key));
                assert forall|j: int| i < j < w.len() implies !#[trigger] overridden(
                    w[j],
                    key,
                ) by {
                    assert(!overridden(v[j], key));
                }
            }
        }
    }
}

/// Modes are told apart by their names.
pub proof fn modes_are_told_apart(a: LayerMode, b: LayerMode)
    ensures
        a.name() == b.name() ==> a == b,
{
    reveal_strlit("Default");
    reveal_strlit("Outline");
    reveal_strlit("Fill");
    assert("Default"@[0] == 'D');
    assert("Outline"@[0] == 'O');
    assert("Fill"@[0] == 'F');
}

/// A refusal is seen with its reason.
pub proof fn refusals_carry_their_reason(m: Message)
    ensures
        complaint(Ok(())) is None,
        complaint(Err(m)) == Some(m@),
{
}

/// The field of an override shows its value and is empty without one; it does
/// not depend on the other overrides.  There are three.
pub proof fn fields_show_their_override(l: Layer, other: Layer, field: int)
    ensures
        l.field(0) is Some && l.field(1) is Some && l.field(2) is Some,
        l.feedrate is None ==> l.field(0)->0.len() == 0,
        l.power is None ==> l.field(1)->0.len() == 0,
        l.passes is None ==> l.field(2)->0.len() == 0,
        l.feedrate matches Some(v) ==> l.field(0) == Some(message::exact(v, 0)),
        l.power matches Some(v) ==> l.field(1) == Some(message::exact(v, 0)),
        l.passes matches Some(n) ==> l.field(2) == Some(message::count(n as nat)),
        field < 0 || field > 2 ==> l.field(field) is None,
{
}

/// What is told of a layer begins with the feed rate and ends with the passes that
/// are in effect for it, and holds its power.
pub proof fn a_layer_tells_what_is_in_effect(l: Layer, feedrate: Real, power: Real)
    ensures
        ({
            let (f, p, n) = l.in_effect(feedrate, power);
            let t = l.summary(feedrate, power);
            let (a, b, c) = (
                message::exact(f, 0),
                message::exact(p, 0),
                message::count(n as nat),
            );
            &&& t.len() == a.len() + b.len() + c.len() + 5
            &&& t.subrange(1, 1 + a.len() as int) == a
            &&& t.subrange(3 + a.len() as int, 3 + a.len() + b.len() as int) == b
            &&& t.skip(t.len() - c.len()) == c
        }),
{
    let (f, p, n) = l.in_effect(feedrate, power);
    let t = l.summary(feedrate, power);
    let (a, b, c) = (message::exact(f, 0), message::exact(p, 0), message::count(n as nat));
    reveal_strlit("F");
    reveal_strlit(" S");
    reveal_strlit(" ×");
    assert(message::plain("F"@).len() == 1);
    assert(message::plain(" S"@).len() == 2);
    assert(message::plain(" ×"@).len() == 2);
    assert(t.subrange(1, 1 + a.len() as int) =~= a);
    assert(t.subrange(3 + a.len() as int, 3 + a.len() + b.len() as int) =~= b);
    assert(t.skip(t.len() - c.len()) =~= c);
}

/// A text that is shown is shown as it is.
pub proof fn fields_are_shown_as_they_are(m: Message)
    ensures
        shown(Some(m)) == Some(m@),
        shown(None) is None,
{
}

/// A list of entries with differing keys stands for the map in which every key has
/// its own entry, and there are no others.
pub proof fn entries_are_found_by_their_key(v: Seq<(String, LayerOverrideOptions)>, i: int)
    requires
        forall|a: int, b: int|
            0 <= a < b < v.len() ==> (#[trigger] v[a]).0@ != (#[trigger] v[b]).0@,
        0 <= i < v.len(),
    ensures
        keys_differ(v),
        as_map(v).dom().contains(v[i].0@),
        as_map(v)[v[i].0@] == v[i].1,
        forall|k: Seq<char>| #[trigger]
            as_map(v).dom().contains(k) ==> exists|j: int|
                0 <= j < v.len() && (#[trigger] v[j]).0@ == k,
{
    lemma_as_map(v);
}

} // verus!
