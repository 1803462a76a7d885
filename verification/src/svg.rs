//! Drawings as nodes with attributes, and the layers among them.
use vstd::prelude::*;

use crate::binary64::Real;
use crate::layers::SvgLayerInfo;
use crate::text;

verus! {

// ── Nodes ─────────────────────────────────────────────────────────────────────

/// An attribute of a node.
#[derive(Debug)]
pub struct SvgAttribute {
    pub namespace: Option<String>,
    /// Its name without a prefix.
    pub name: String,
    pub value: String,
}

/// A node of a drawing.
#[derive(Debug)]
pub struct SvgNode {
    /// Its name without a prefix; empty for what is not an element.
    pub tag: String,
    pub attributes: Vec<SvgAttribute>,
}

/// An attribute, with texts by their characters.
pub struct Attribute {
    pub namespace: Option<Seq<char>>,
    pub name: Seq<char>,
    pub value: Seq<char>,
}

/// A node, with texts by their characters.
pub struct Element {
    pub tag: Seq<char>,
    pub attributes: Seq<Attribute>,
}

impl View for SvgAttribute {
    type V = Attribute;

    open spec fn view(&self) -> Attribute {
        Attribute {
            namespace: text::opt(self.namespace),
            name: self.name@,
            value: self.value@,
        }
    }
}

impl View for SvgNode {
    type V = Element;

    open spec fn view(&self) -> Element {
        Element {
            tag: self.tag@,
            attributes: self.attributes@.map_values(|a: SvgAttribute| a@),
        }
    }
}

/// The nodes of a drawing, with texts by their characters.
pub open spec fn elements(v: Seq<SvgNode>) -> Seq<Element> {
    v.map_values(|n: SvgNode| n@)
}

/// What reading a drawing gave, with texts by their characters.
pub open spec fn reading(r: Result<Vec<SvgNode>, String>) -> Result<Seq<Element>, Seq<char>> {
    match r {
        Ok(v) => Ok(elements(v@)),
        Err(e) => Err(e@),
    }
}

/// The nodes of a document, in the order of the document and the root first, or
/// why it is no document.
pub uninterp spec fn document_nodes(svg: Seq<char>) -> Result<Seq<Element>, Seq<char>>;

/// Why a text is no document, if it is none.
pub open spec fn document_error(svg: Seq<char>) -> Option<Seq<char>> {
    match document_nodes(svg) {
        Ok(_) => None,
        Err(e) => Some(e),
    }
}

/// Calls `roxmltree::Document::parse_with_options`, with document type
/// declarations allowed, and takes down tag and attributes of each node that
/// `descendants` gives.  Nothing is claimed of the nodes but that they depend on
/// the text alone.
#[verifier::external_body]
pub(crate) fn parse_document(svg: &str) -> (r: Result<Vec<SvgNode>, String>)
    ensures
        reading(r) == document_nodes(svg@),
{
    let options = roxmltree::ParsingOptions { allow_dtd: true, ..Default::default() };
    let document = roxmltree::Document::parse_with_options(svg, options).map_err(|e| e.to_string())?;
    let attribute = |a: roxmltree::Attribute| SvgAttribute {
        namespace: a.namespace().map(str::to_owned),
        name: a.name().to_owned(),
        value: a.value().to_owned(),
    };
    let node = |n: roxmltree::Node| SvgNode {
        tag: n.tag_name().name().to_owned(),
        attributes: n.attributes().map(attribute).collect(),
    };
    Ok(document.descendants().map(node).collect())
}

/// The value of the first attribute with a namespace and a name.
pub open spec fn attribute(
    v: Seq<Attribute>,
    namespace: Option<Seq<char>>,
    name: Seq<char>,
) -> Option<Seq<char>>
    decreases v.len(),
{
    if v.len() == 0 {
        None
    } else if v[0].namespace == namespace && v[0].name == name {
        Some(v[0].value)
    } else {
        attribute(v.skip(1), namespace, name)
    }
}

/// A text that may be absent, by its characters.
pub open spec fn seen(s: Option<&str>) -> Option<Seq<char>> {
    match s {
        Some(t) => Some(t@),
        None => None,
    }
}

fn same_option(a: &Option<String>, b: Option<&str>) -> (r: bool)
    ensures
        r == (text::opt(*a) == seen(b)),
{
    match (a, b) {
        (Some(x), Some(y)) => text::same(x.as_str(), y),
        (None, None) => true,
        _ => false,
    }
}

impl SvgNode {
    /// The value of the attribute with a namespace and a name.
    pub fn attribute(&self, namespace: Option<&str>, name: &str) -> (r: Option<String>)
        ensures
            text::opt(r) == attribute(self@.attributes, seen(namespace), name@),
    {
        let ghost all = self@.attributes;
        let mut i: usize = 0;
        assert(all.skip(0) =~= all);
        while i < self.attributes.len()
            invariant
                i <= self.attributes@.len(),
                all == self@.attributes,
                attribute(all.skip(i as int), seen(namespace), name@) == attribute(
                    all,
                    seen(namespace),
                    name@,
                ),
            decreases self.attributes@.len() - i,
        {
            let a = &self.attributes[i];
            assert(all.skip(i as int)[0] == a@);
            assert(all.skip(i as int).skip(1) =~= all.skip(i + 1));
            if same_option(&a.namespace, namespace) && text::same(a.name.as_str(), name) {
                return Some(a.value.clone());
            }
            i = i + 1;
        }
        None
    }
}

// ── Layers ────────────────────────────────────────────────────────────────────

/// A layer of a drawing, with the numbers as they are written.
#[derive(Debug)]
pub struct RawLayer {
    pub label: String,
    pub key: String,
    pub feedrate: Option<String>,
    pub power: Option<String>,
    pub passes: Option<u32>,
}

/// A layer of a drawing, with texts by their characters.
pub struct Raw {
    pub label: Seq<char>,
    pub key: Seq<char>,
    pub feedrate: Option<Seq<char>>,
    pub power: Option<Seq<char>>,
    pub passes: Option<u32>,
}

impl View for RawLayer {
    type V = Raw;

    open spec fn view(&self) -> Raw {
        Raw {
            label: self.label@,
            key: self.key@,
            feedrate: text::opt(self.feedrate),
            power: text::opt(self.power),
            passes: self.passes,
        }
    }
}

/// The layers of a drawing, with texts by their characters.
pub open spec fn raws(v: Seq<RawLayer>) -> Seq<Raw> {
    v.map_values(|l: RawLayer| l@)
}

/// The name that was given to a layer in the drawing program.
pub open spec fn label_of(n: Element) -> Option<Seq<char>> {
    attribute(
        n.attributes,
        Some("http://www.inkscape.org/namespaces/inkscape"@),
        "label"@,
    )
}

/// An attribute without a namespace.
pub open spec fn own(n: Element, name: Seq<char>) -> Option<Seq<char>> {
    attribute(n.attributes, None, name)
}

/// Whether a node is a layer: a group with a name or with settings of its own.
pub open spec fn is_layer(n: Element) -> bool {
    n.tag == "g"@ && (label_of(n) is Some || own(n, "id"@) is Some || own(
        n,
        "data-feedrate"@,
    ) is Some || own(n, "data-power"@) is Some || own(n, "data-passes"@) is Some)
}

/// The number of passes, if the text is one.
pub open spec fn passes_of(s: Option<Seq<char>>) -> Option<u32> {
    match s {
        Some(t) => match text::natural_upto(t, u32::MAX as nat) {
            Some(n) => Some(n as u32),
            None => None,
        },
        None => None,
    }
}

/// The layer that a node is.  It is found again by its identifier, by its label
/// if it has none, or by its number among the layers.
pub open spec fn layer_at(n: Element, number: nat) -> Raw {
    let key = match own(n, "id"@) {
        Some(id) => id,
        None => match label_of(n) {
            Some(l) => l,
            None => "layer"@ + text::decimal(number),
        },
    };
    Raw {
        label: match label_of(n) {
            Some(l) => l,
            None => key,
        },
        key,
        feedrate: own(n, "data-feedrate"@),
        power: own(n, "data-power"@),
        passes: passes_of(own(n, "data-passes"@)),
    }
}

/// The layers among the nodes, in order.
pub open spec fn layers_of(v: Seq<Element>) -> Seq<Raw>
    decreases v.len(),
{
    if v.len() == 0 {
        seq![]
    } else {
        let rest = layers_of(v.drop_last());
        if is_layer(v.last()) {
            rest.push(layer_at(v.last(), rest.len()))
        } else {
            rest
        }
    }
}

fn read_passes(s: &Option<String>) -> (r: Option<u32>)
    ensures
        r == passes_of(text::opt(*s)),
{
    match s {
        Some(t) => match text::parse_natural(t.as_str(), u32::MAX as u64) {
            Some(n) => Some(n as u32),
            None => None,
        },
        None => None,
    }
}

fn read_layer(n: &SvgNode, number: usize) -> (r: Option<RawLayer>)
    ensures
        r is Some == is_layer(n@),
        r matches Some(l) ==> l@ == layer_at(n@, number as nat),
{
    if !text::same(n.tag.as_str(), "g") {
        return None;
    }
    let label = n.attribute(Some("http://www.inkscape.org/namespaces/inkscape"), "label");
    let id = n.attribute(None, "id");
    let feedrate = n.attribute(None, "data-feedrate");
    let power = n.attribute(None, "data-power");
    let passes = n.attribute(None, "data-passes");
    if label.is_none() && id.is_none() && feedrate.is_none() && power.is_none()
        && passes.is_none() {
        return None;
    }
    let key = match &id {
        Some(i) => i.clone(),
        None => match &label {
            Some(l) => l.clone(),
            None => text::joined("layer", text::decimal_of(number as u64).as_str()),
        },
    };
    let shown = match &label {
        Some(l) => l.clone(),
        None => key.clone(),
    };
    let passes = read_passes(&passes);
    Some(RawLayer { label: shown, key, feedrate, power, passes })
}

/// The layers among the nodes of a drawing, in order.
pub fn extract_svg_layers(nodes: &Vec<SvgNode>) -> (r: Vec<RawLayer>)
    ensures
        raws(r@) == layers_of(elements(nodes@)),
{
    let ghost all = elements(nodes@);
    let mut out: Vec<RawLayer> = Vec::new();
    let mut i: usize = 0;
    assert(all.take(0) =~= seq![]);
    assert(raws(out@) =~= layers_of(all.take(0)));
    while i < nodes.len()
        invariant
            i <= nodes@.len(),
            all == elements(nodes@),
            raws(out@) == layers_of(all.take(i as int)),
        decreases nodes@.len() - i,
    {
        assert(all.take(i + 1).drop_last() =~= all.take(i as int));
        assert(all.take(i + 1).last() == nodes@[i as int]@);
        let ghost before = out@;
        let n = out.len();
        assert(raws(before).len() == n);
        if let Some(l) = read_layer(&nodes[i], n) {
            let ghost shown = l@;
            out.push(l);
            assert(raws(out@) =~= raws(before).push(shown));
        }
        i = i + 1;
    }
    assert(all.take(i as int) =~= all);
    out
}

/// The layers of a drawing, or why it cannot be read.
pub fn read_layers(svg: &str) -> (r: Result<Vec<RawLayer>, String>)
    ensures
        match document_nodes(svg@) {
            Ok(nodes) => r matches Ok(v) && raws(v@) == layers_of(nodes),
            Err(e) => r matches Err(m) && m@ == e,
        },
{
    match parse_document(svg) {
        Ok(nodes) => Ok(extract_svg_layers(&nodes)),
        Err(e) => Err(e),
    }
}

impl RawLayer {
    /// The layer with its numbers, given what reading them gave.
    pub fn with_numbers(&self, feedrate: Option<Real>, power: Option<Real>) -> (r: SvgLayerInfo)
        ensures
            r.label@ == self@.label,
            r.key@ == self@.key,
            r.svg_feedrate == (if self@.feedrate is Some {
                feedrate
            } else {
                None
            }),
            r.svg_power == (if self@.power is Some {
                power
            } else {
                None
            }),
            r.svg_passes == self@.passes,
    {
        SvgLayerInfo {
            label: self.label.clone(),
            key: self.key.clone(),
            svg_feedrate: if self.feedrate.is_some() {
                feedrate
            } else {
                None
            },
            svg_power: if self.power.is_some() {
                power
            } else {
                None
            },
            svg_passes: self.passes,
        }
    }
}

/// A layer has a name, and what is found by an identifier has it as its key.
pub proof fn layers_can_be_found(n: Element, number: nat)
    requires
        is_layer(n),
    ensures
        own(n, "id"@) matches Some(id) ==> layer_at(n, number).key == id,
        label_of(n) matches Some(l) ==> layer_at(n, number).label == l,
        label_of(n) is None ==> layer_at(n, number).label == layer_at(n, number).key,
{
}

/// Of several attributes with a namespace and a name the first counts; others do
/// not matter.
pub proof fn the_first_attribute_counts(
    a: Attribute,
    v: Seq<Attribute>,
    namespace: Option<Seq<char>>,
    name: Seq<char>,
)
    ensures
        attribute(seq![], namespace, name) is None,
        a.namespace == namespace && a.name == name ==> attribute(seq![a] + v, namespace, name)
            == Some(a.value),
        a.namespace != namespace || a.name != name ==> attribute(seq![a] + v, namespace, name)
            == attribute(v, namespace, name),
{
    assert((seq![a] + v).skip(1) =~= v);
}

/// Only groups are layers, and a group is one as soon as it has a name of either
/// kind or a setting of its own.
pub proof fn groups_with_a_name_are_layers(n: Element)
    ensures
        n.tag != "g"@ ==> !is_layer(n),
        n.tag == "g"@ ==> {
            &&& label_of(n) is Some ==> is_layer(n)
            &&& own(n, "id"@) is Some ==> is_layer(n)
            &&& own(n, "data-feedrate"@) is Some ==> is_layer(n)
            &&& own(n, "data-power"@) is Some ==> is_layer(n)
            &&& own(n, "data-passes"@) is Some ==> is_layer(n)
        },
        n.attributes.len() == 0 ==> !is_layer(n),
{
}

/// A layer has the settings that its group declares, each as it is written; passes
/// are a whole number or none.
pub proof fn layers_have_the_settings_of_their_group(n: Element, number: nat, passes: u32)
    ensures
        ({
            let l = layer_at(n, number);
            &&& l.feedrate == own(n, "data-feedrate"@)
            &&& l.power == own(n, "data-power"@)
            &&& own(n, "data-passes"@) is None ==> l.passes is None
            &&& own(n, "data-passes"@) == Some(text::decimal(passes as nat)) ==> l.passes == Some(
                passes,
            )
            &&& own(n, "id"@) is None ==> (label_of(n) matches Some(t) ==> l.key == t)
            &&& own(n, "id"@) is None && label_of(n) is None ==> l.key == "layer"@ + text::decimal(
                number,
            )
        }),
        passes_of(Some(text::decimal(passes as nat))) == Some(passes),
        passes_of(None) is None,
{
    text::written_numbers_are_read_up_to_the_limit(passes as nat, u32::MAX as nat);
}

/// The layers of a drawing are those of its nodes that are layers, in their order,
/// numbered from zero.
pub proof fn layers_are_counted_in_order(v: Seq<Element>, n: Element)
    ensures
        layers_of(seq![]) == Seq::<Raw>::empty(),
        is_layer(n) ==> layers_of(v.push(n)) == layers_of(v).push(layer_at(n, layers_of(v).len())),
        !is_layer(n) ==> layers_of(v.push(n)) == layers_of(v),
{
    assert(v.push(n).drop_last() =~= v);
}

/// An attribute without a namespace is read as the node's own, and a label only in
/// the namespace of the drawing program.
pub proof fn attributes_are_told_by_their_namespace(n: Element, name: Seq<char>)
    ensures
        own(n, name) == attribute(n.attributes, None, name),
        label_of(n) == attribute(
            n.attributes,
            Some("http://www.inkscape.org/namespaces/inkscape"@),
            "label"@,
        ),
{
}

} // verus!
