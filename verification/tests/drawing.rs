//! Layers, names, the origin and the turtle.
use larris::binary64::Real;
use larris::layers::{layer_override_map, SvgLayerInfo, TuiLayerSettings};
use larris::message::{Message, Piece, Quantity};
use larris::program::{current_overrides, svg2program, PathSegment, Shape};
use larris::svg::{extract_svg_layers, read_layers, SvgAttribute, SvgNode};
use larris::turtle::{Circle, CurvePiece, GCodeTurtle};
use larris::visitor::{
    comment, current_passes, needs_extents, node_name, origin_shift, zero_origin,
    ConversionConfig, LayerOverride, Shift,
};

fn num(v: f64) -> Real {
    Real { bits: v.to_bits() }
}

fn amount(q: &Quantity) -> f64 {
    match q {
        Quantity::Exact(r) => f64::from_bits(r.bits),
        Quantity::Written(s) => s.parse().unwrap(),
        Quantity::Minus(a, b) => amount(a) - amount(b),
    }
}

fn shown(m: &Message) -> String {
    let mut out = String::new();
    for p in &m.pieces {
        match p {
            Piece::Plain(s) => out += s,
            Piece::Number { quantity, places, width } => {
                let (w, p) = (*width as usize, *places as usize);
                out += &format!("{:>w$.p$}", amount(quantity));
            }
        }
    }
    out
}

fn attribute(name: &str, value: &str) -> SvgAttribute {
    SvgAttribute { namespace: None, name: name.to_owned(), value: value.to_owned() }
}

fn group(attributes: Vec<SvgAttribute>) -> SvgNode {
    SvgNode { tag: "g".to_owned(), attributes }
}

const DRAWING: &str = r#"<?xml version="1.0"?>
<!DOCTYPE svg>
<svg xmlns="http://www.w3.org/2000/svg"
     xmlns:inkscape="http://www.inkscape.org/namespaces/inkscape">
  <g inkscape:label="Cut" id="cut" data-feedrate="400" data-power="900" data-passes="2">
    <path d="M0 0 L1 1"/>
    <g/>
  </g>
  <g id="engrave"/>
  <g inkscape:label="Marks" data-passes="x"/>
  <g data-power="5"/>
</svg>"#;

#[test]
fn layers_are_read_from_a_drawing() {
    let layers = read_layers(DRAWING).unwrap();
    let names: Vec<(&str, &str)> =
        layers.iter().map(|l| (l.label.as_str(), l.key.as_str())).collect();
    assert_eq!(
        names,
        [("Cut", "cut"), ("engrave", "engrave"), ("Marks", "Marks"), ("layer3", "layer3")]
    );
    assert_eq!(layers[0].feedrate.as_deref(), Some("400"));
    assert_eq!(layers[0].power.as_deref(), Some("900"));
    assert_eq!(layers[0].passes, Some(2));
    assert_eq!(layers[2].passes, None);
    assert_eq!(layers[1].feedrate, None);
}

#[test]
fn what_is_no_drawing_is_told() {
    assert!(read_layers("<svg>").is_err());
    assert!(read_layers("no drawing").is_err());
    assert!(read_layers("<svg/>").unwrap().is_empty());
}

#[test]
fn only_groups_are_layers() {
    let nodes = vec![
        SvgNode { tag: "path".to_owned(), attributes: vec![attribute("id", "p")] },
        group(vec![]),
        group(vec![attribute("id", "a")]),
    ];
    let layers = extract_svg_layers(&nodes);
    assert_eq!(layers.len(), 1);
    assert_eq!(layers[0].key, "a");
}

#[test]
fn a_layer_takes_the_numbers_that_were_read() {
    let layers = read_layers(DRAWING).unwrap();
    let info = layers[0].with_numbers(Some(num(400.0)), Some(num(900.0)));
    assert_eq!(info.label, "Cut");
    assert_eq!(info.svg_feedrate, Some(num(400.0)));
    assert_eq!(info.svg_power, Some(num(900.0)));
    assert_eq!(info.svg_passes, Some(2));
    let info = layers[1].with_numbers(Some(num(1.0)), Some(num(1.0)));
    assert_eq!((info.svg_feedrate, info.svg_power), (None, None));
}

#[test]
fn attributes_are_found_by_namespace_and_name() {
    let mut node = group(vec![attribute("id", "a"), attribute("id", "b")]);
    node.attributes.push(SvgAttribute {
        namespace: Some("urn:x".to_owned()),
        name: "label".to_owned(),
        value: "L".to_owned(),
    });
    assert_eq!(node.attribute(None, "id"), Some("a".to_owned()));
    assert_eq!(node.attribute(Some("urn:x"), "label"), Some("L".to_owned()));
    assert_eq!(node.attribute(None, "label"), None);
}

fn info(feed: Option<f64>, power: Option<f64>, passes: Option<u32>) -> SvgLayerInfo {
    SvgLayerInfo {
        label: "Cut".to_owned(),
        key: "cut".to_owned(),
        svg_feedrate: feed.map(num),
        svg_power: power.map(num),
        svg_passes: passes,
    }
}

#[test]
fn overrides_from_a_drawing_are_capped() {
    let l = TuiLayerSettings::from_svg_layer(
        &info(Some(9000.0), Some(10.0), Some(3)),
        num(5000.0),
        num(1000.0),
    );
    assert!(l.to_override_options().has_any());
    let o = l.to_override_options();
    assert_eq!(o.feedrate, Some(num(5000.0)));
    assert_eq!(o.power, Some(num(10.0)));
    assert_eq!(o.passes, Some(3));
    let l = TuiLayerSettings::from_svg_layer(&info(None, None, None), num(1.0), num(1.0));
    assert!(!l.to_override_options().has_any());
}

#[test]
fn an_override_is_entered_or_refused() {
    let mut l =
        TuiLayerSettings::from_svg_layer(&info(None, None, None), num(5000.0), num(1000.0));
    let max = (num(5000.0), num(1000.0));
    assert!(l.set_field(0, "900", Some(num(900.0)), max.0, max.1).is_ok());
    assert_eq!(l.feedrate, Some(num(900.0)));
    assert!(l.set_field(0, "fast", None, max.0, max.1).is_err());
    assert_eq!(l.feedrate, Some(num(900.0)));
    assert!(l.set_field(2, "4", Some(num(4.0)), max.0, max.1).is_ok());
    assert_eq!(l.passes, Some(4));
    assert!(l.set_field(2, "many", None, max.0, max.1).is_err());
    assert!(l.set_field(1, " ", None, max.0, max.1).is_ok());
    assert_eq!(l.power, None);
    assert_eq!(l.field_value(0).map(|m| shown(&m)).as_deref(), Some("900"));
    l.clear();
    assert!(!l.to_override_options().has_any());
}

#[test]
fn only_layers_with_overrides_are_listed_and_the_last_counts() {
    let max = (num(5000.0), num(1000.0));
    let bare = TuiLayerSettings::from_svg_layer(&info(None, None, None), max.0, max.1);
    let a = TuiLayerSettings::from_svg_layer(&info(Some(1.0), None, None), max.0, max.1);
    let b = TuiLayerSettings::from_svg_layer(&info(Some(2.0), None, None), max.0, max.1);
    let map = layer_override_map(&vec![bare, a, b]);
    assert_eq!(map.len(), 1);
    assert_eq!(map[0].0, "cut");
    assert_eq!(map[0].1.feedrate, Some(num(2.0)));
}

#[test]
fn nodes_are_named_by_tag_and_identifier() {
    let node = group(vec![attribute("id", "a"), attribute("note", "x"), attribute("note", "y")]);
    assert_eq!(node_name(&node, None), "g#a");
    assert_eq!(node_name(&node, Some("note")), "g#a ( x )  ( y ) ");
    assert_eq!(node_name(&group(vec![]), Some("note")), "g");
    let names = vec!["svg".to_owned(), "g#a".to_owned()];
    assert_eq!(comment(&names, "path"), "svg > g#a > path");
    assert_eq!(comment(&Vec::new(), "svg"), "svg");
}

#[test]
fn the_innermost_number_of_passes_counts() {
    let g = |passes| LayerOverride { feedrate: None, power: None, passes };
    assert_eq!(current_passes(&vec![]), 1);
    assert_eq!(current_passes(&vec![g(Some(3)), g(None)]), 3);
    assert_eq!(current_passes(&vec![g(Some(3)), g(Some(0)), g(None)]), 0);
    assert!(!g(None).has_any());
    assert!(g(Some(1)).has_any());
}

#[test]
fn a_drawing_is_moved_to_its_origin() {
    assert!(needs_extents(zero_origin()));
    assert!(!needs_extents((None, None)));
    assert_eq!(
        origin_shift((Some(num(5.0)), None), (num(2.0), num(3.0))),
        (Shift::By(num(5.0), num(2.0)), Shift::Stay)
    );
    let c = ConversionConfig::default();
    assert_eq!(f64::from_bits(c.tolerance.bits), 0.002);
    assert_eq!(f64::from_bits(c.feedrate.bits), 300.0);
    assert_eq!(f64::from_bits(c.dpi.bits), 96.0);
}

fn program(t: &GCodeTurtle) -> Vec<String> {
    t.program
        .iter()
        .map(|o| {
            let text = format!("{o:?}");
            text.split_whitespace().next().unwrap().to_owned()
        })
        .collect()
}

#[test]
fn a_turtle_cuts_with_the_tool_on_and_travels_with_it_off() {
    let mut t = GCodeTurtle::new(num(300.0));
    t.begin();
    t.move_to((num(1.0), num(2.0)));
    t.line_to((num(3.0), num(4.0)));
    t.end();
    assert_eq!(
        program(&t),
        [
            "Millimetres", "Absolute", "ProgramBegin", "Absolute", "ToolOff", "Absolute", "Rapid",
            "ToolOn", "Absolute", "Line", "ToolOff", "Absolute", "ProgramEnd"
        ]
    );
}

#[test]
fn a_layer_overrides_feed_rate_and_power() {
    let mut t = GCodeTurtle::new(num(300.0));
    assert_eq!(t.effective_feedrate(), num(300.0));
    t.set_layer_overrides(Some(num(77.0)), Some(num(5.0)));
    assert_eq!(t.effective_feedrate(), num(77.0));
    t.line_to((num(0.0), num(0.0)));
    let last = format!("{:?}", t.program.last().unwrap());
    assert!(last.contains(&format!("feedrate: {:?}", num(77.0))), "{last}");
    assert!(last.contains(&format!("power: Some({:?})", num(5.0))), "{last}");
    t.set_layer_overrides(None, None);
    assert_eq!(t.effective_feedrate(), num(300.0));
}

#[test]
fn arcs_are_cut_as_lines_or_circles() {
    let mut t = GCodeTurtle::new(num(300.0));
    let part = |x: f64, sweep| Circle::Part { to: (num(x), num(0.0)), radius: num(2.0), sweep };
    let halves = Circle::Halves(Box::new(part(1.0, true)), Box::new(part(2.0, false)));
    t.arc(true, (num(9.0), num(9.0)), &vec![]);
    t.arc(false, (num(9.0), num(9.0)), &vec![CurvePiece::Circle(halves)]);
    t.cubic_bezier(&vec![CurvePiece::Line((num(1.0), num(1.0)))]);
    assert_eq!(
        program(&t),
        [
            "ToolOn", "Absolute", "Line", "ToolOn", "Absolute", "Arc", "Arc", "ToolOn", "Absolute",
            "ToolOn", "Absolute", "Line"
        ]
    );
    let arcs: Vec<bool> = t
        .program
        .iter()
        .map(|o| format!("{o:?}"))
        .filter(|s| s.starts_with("Arc"))
        .map(|s| s.contains("clockwise: true"))
        .collect();
    assert_eq!(arcs, [false, true]);
}

#[test]
fn the_innermost_overrides_count() {
    let g = |f: Option<f64>, p: Option<f64>| LayerOverride {
        feedrate: f.map(num),
        power: p.map(num),
        passes: None,
    };
    assert_eq!(current_overrides(&vec![]), (None, None));
    assert_eq!(
        current_overrides(&vec![g(Some(1.0), Some(2.0)), g(Some(3.0), None)]),
        (Some(num(3.0)), Some(num(2.0)))
    );
}

#[test]
fn a_drawing_becomes_a_program() {
    let shape = |passes| Shape {
        names: vec!["svg".to_owned()],
        name: "path#a".to_owned(),
        groups: vec![LayerOverride { feedrate: Some(num(50.0)), power: None, passes }],
        segments: vec![
            PathSegment::Move((num(1.0), num(1.0))),
            PathSegment::Line((num(2.0), num(1.0))),
        ],
    };
    let config = ConversionConfig::default();
    let t = svg2program(&vec![shape(None), shape(Some(2))], &config);
    let once = ["ToolOff", "Absolute", "Rapid", "ToolOn", "Absolute", "Line"];
    let mut expected = vec!["Millimetres", "Absolute", "ProgramBegin", "Absolute"];
    expected.push("Comment(\"svg");
    expected.extend(once);
    expected.push("Comment(\"svg");
    expected.extend(once);
    expected.extend(once);
    expected.extend(["ToolOff", "Absolute", "ProgramEnd"]);
    assert_eq!(program(&t), expected);
    let text = format!("{:?}", t.program);
    assert!(text.contains("svg > path#a"));
    assert!(text.contains(&format!("feedrate: {:?}", num(50.0))));
    let t = svg2program(&vec![shape(Some(0))], &config);
    assert_eq!(t.program.len(), 8);
}
