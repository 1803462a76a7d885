//! The area that a job burns, and what it moves through.
use std::collections::HashSet;

use gcode_nom::arc::{ArcVal, Form};
use larris::binary64::Real;
use larris::trace::{
    collect_segments, extract_s_word, reached_area, widen, ArcShape, Coordinate, Extents, Kind,
    Reply, Segment, TracedLine, Tracer, Word,
};

fn num(v: f64) -> Real {
    Real { bits: v.to_bits() }
}

fn value(r: Real) -> f64 {
    f64::from_bits(r.bits)
}

fn at(c: Coordinate) -> Real {
    match c {
        Coordinate::At(r) => r,
        Coordinate::Sum(a, b) => num(value(a) + value(b)),
    }
}

/// Trace a job, with sums and arcs worked out in floating point.
fn trace(gcode: &str) -> Vec<TracedLine> {
    let mut tracer = Tracer::new();
    let mut lines = Vec::new();
    for line in gcode.lines() {
        let ask = tracer.ask(line);
        let mut arc = ArcShape {
            center: (Real::zero(), Real::zero()),
            radius: Real::zero(),
            theta_start: Real::zero(),
            theta_end: Real::zero(),
        };
        let mut to = (at(ask.x), at(ask.y));
        let mut mid = to;
        if matches!(ask.kind, Kind::Clockwise | Kind::CounterClockwise) {
            let words: HashSet<ArcVal> = ask
                .words
                .iter()
                .filter_map(|w| match w {
                    Word::X(v) => Some(ArcVal::X(f64::from_bits(*v))),
                    Word::Y(v) => Some(ArcVal::Y(f64::from_bits(*v))),
                    Word::I(v) => Some(ArcVal::I(f64::from_bits(*v))),
                    Word::J(v) => Some(ArcVal::J(f64::from_bits(*v))),
                    _ => None,
                })
                .collect();
            let p = gcode_nom::compute_arc(value(tracer.x), value(tracer.y), &Form::IJ(words));
            let on = |t: f64| {
                (num(p.center.0 + p.radius * t.cos()), num(p.center.1 + p.radius * t.sin()))
            };
            to = on(p.theta_end);
            mid = on((p.theta_start + p.theta_end) / 2.0);
            arc = ArcShape {
                center: (num(p.center.0), num(p.center.1)),
                radius: num(p.radius),
                theta_start: num(p.theta_start),
                theta_end: num(p.theta_end),
            };
        }
        let s_raw = ask.s_text.as_ref().and_then(|s| s.parse::<f64>().ok()).map(num);
        lines.extend(tracer.answer(&ask, Reply { to, arc, mid, s_raw }));
    }
    lines
}

fn laser_bounding_box(gcode: &str) -> Option<((f64, f64), (f64, f64))> {
    larris::trace::laser_bounding_box(&trace(gcode)).map(|b| {
        ((value(b.min.0), value(b.min.1)), (value(b.max.0), value(b.max.1)))
    })
}

fn moves_and_area(gcode: &str) -> (Vec<Segment>, Extents) {
    let lines = trace(gcode);
    let reach = reached_area(&lines);
    let narrow = (
        (value(reach.max.0) - value(reach.min.0)).abs() < 1e-9,
        (value(reach.max.1) - value(reach.min.1)).abs() < 1e-9,
    );
    let next = (num(value(reach.min.0) + 1.0), num(value(reach.min.1) + 1.0));
    collect_segments(&lines, narrow, next)
}

#[test]
fn bb_empty_gcode_returns_none() {
    assert!(laser_bounding_box("").is_none());
}

#[test]
fn bb_only_rapid_moves_returns_none() {
    let gcode = "G90\nG0 X10 Y10\nG0 X20 Y20\n";
    assert!(laser_bounding_box(gcode).is_none());
}

#[test]
fn bb_simple_laser_on_g1() {
    let gcode = "G90\nG1 X10 Y5 S500\n";
    let result = laser_bounding_box(gcode);
    assert!(result.is_some(), "expected Some bounding box");
    let ((x0, y0), (x1, y1)) = result.unwrap();
    assert!((x0 - 0.0).abs() < 1e-9, "min x should be 0 (origin)");
    assert!((y0 - 0.0).abs() < 1e-9, "min y should be 0 (origin)");
    assert!((x1 - 10.0).abs() < 1e-9, "max x should be 10");
    assert!((y1 - 5.0).abs() < 1e-9, "max y should be 5");
}

#[test]
fn bb_s_word_is_sticky() {
    let gcode = "G90\nG1 X10 Y0 S800\nG1 X10 Y20\n";
    let result = laser_bounding_box(gcode);
    assert!(result.is_some());
    let ((_, y0), (_, y1)) = result.unwrap();
    assert!((y0 - 0.0).abs() < 1e-9);
    assert!((y1 - 20.0).abs() < 1e-9, "sticky S should make second G1 contribute");
}

#[test]
fn bb_s0_turns_laser_off() {
    let gcode = "G90\nG1 X10 Y0 S800\nG1 X10 Y30 S0\n";
    let result = laser_bounding_box(gcode);
    assert!(result.is_some());
    let ((_, _), (_, y1)) = result.unwrap();
    assert!(y1 < 1.0, "S0 move to Y30 must not expand the bounding box, got y1={y1}");
}

#[test]
fn bb_g0_never_contributes() {
    let gcode = "G90\nG1 X5 Y5 S500\nG0 X100 Y100\n";
    let result = laser_bounding_box(gcode);
    assert!(result.is_some());
    let ((_, _), (x1, y1)) = result.unwrap();
    assert!(x1 <= 5.0 + 1e-9, "G0 to X100 must not expand bounding box, got x1={x1}");
    assert!(y1 <= 5.0 + 1e-9, "G0 to Y100 must not expand bounding box, got y1={y1}");
}

#[test]
fn bb_relative_mode_accumulates_correctly() {
    let gcode = "G91\nG1 X10 Y0 S600\nG1 X0 Y10\n";
    let result = laser_bounding_box(gcode);
    assert!(result.is_some());
    let ((x0, y0), (x1, y1)) = result.unwrap();
    assert!((x0 - 0.0).abs() < 1e-9, "origin x=0");
    assert!((y0 - 0.0).abs() < 1e-9, "origin y=0");
    assert!((x1 - 10.0).abs() < 1e-9, "relative X+10 from 0 = 10");
    assert!((y1 - 10.0).abs() < 1e-9, "relative Y+10 from 0 = 10");
}

#[test]
fn bb_s_word_on_non_motion_line_is_picked_up() {
    let gcode = "G90\nM4 S1000\nG1 X20 Y20\n";
    let result = laser_bounding_box(gcode);
    assert!(
        result.is_some(),
        "S word on M4 line should set sticky S so subsequent G1 contributes"
    );
}

#[test]
fn bb_multiline_expands_correctly() {
    let gcode = "G90\nG1 X10 Y0 S500\nG1 X10 Y15\nG1 X-5 Y15\n";
    let result = laser_bounding_box(gcode);
    assert!(result.is_some());
    let ((x0, _), (x1, y1)) = result.unwrap();
    assert!((x0 - -5.0).abs() < 1e-9, "min x should be -5");
    assert!((x1 - 10.0).abs() < 1e-9, "max x should be 10");
    assert!((y1 - 15.0).abs() < 1e-9, "max y should be 15");
}

#[test]
fn bb_g90_restores_absolute_mode() {
    let gcode = "G90\nG1 X5 Y5 S500\nG91\nG1 X5 Y5\nG90\nG1 X0 Y0\n";
    let result = laser_bounding_box(gcode);
    assert!(result.is_some());
    let ((x0, y0), (x1, y1)) = result.unwrap();
    assert!((x0 - 0.0).abs() < 1e-9, "x0 should be 0 after absolute G1 X0");
    assert!((y0 - 0.0).abs() < 1e-9, "y0 should be 0 after absolute G1 Y0");
    assert!((x1 - 10.0).abs() < 1e-9, "x1 should be 10");
    assert!((y1 - 10.0).abs() < 1e-9, "y1 should be 10");
}

#[test]
fn an_arc_burns_its_ends_and_its_middle() {
    // A quarter circle about the origin, from (10, 0) to (0, 10).
    let gcode = "G90\nG0 X10 Y0\nG3 X0 Y10 I-10 J0 S300\n";
    let ((x0, y0), (x1, y1)) = laser_bounding_box(gcode).unwrap();
    assert!((x0 - 0.0).abs() < 1e-9 && (y0 - 0.0).abs() < 1e-9);
    assert!((x1 - 10.0).abs() < 1e-9 && (y1 - 10.0).abs() < 1e-9);
    let (segments, _) = moves_and_area(gcode);
    match segments[1] {
        Segment::Arc { from, shape, clockwise, end, mid } => {
            assert_eq!((value(from.0), value(from.1)), (10.0, 0.0));
            assert_eq!((value(shape.center.0), value(shape.center.1)), (0.0, 0.0));
            assert!(!clockwise);
            assert!((value(end.1) - 10.0).abs() < 1e-9);
            assert!((value(mid.0) - value(mid.1)).abs() < 1e-9);
        }
        other => panic!("expected an arc, got {other:?}"),
    }
}

#[test]
fn a_side_without_length_is_widened() {
    let (segments, area) = moves_and_area("");
    assert!(segments.is_empty());
    assert_eq!((value(area.min.0), value(area.min.1)), (0.0, 0.0));
    assert_eq!((value(area.max.0), value(area.max.1)), (1.0, 1.0));
    let (_, area) = moves_and_area("G1 X7 S1\n");
    assert_eq!((value(area.max.0), value(area.max.1)), (7.0, 1.0));
    let flat = widen(area, (false, true), (num(3.0), num(4.0)));
    assert_eq!((flat.min, flat.max), (area.min, (num(7.0), num(4.0))));
}

#[test]
fn segments_follow_each_other_and_start_at_the_origin() {
    let (segments, area) = moves_and_area("G0 X2 Y3\n\nG1 X-4\nM5\nG1 Y9 S1\n");
    assert_eq!(segments.len(), 3);
    let ends: Vec<((f64, f64), (f64, f64))> = segments
        .iter()
        .map(|s| match s {
            Segment::Rapid { from, to } | Segment::Cut { from, to } => {
                ((value(from.0), value(from.1)), (value(to.0), value(to.1)))
            }
            Segment::Arc { .. } => unreachable!(),
        })
        .collect();
    assert_eq!(
        ends,
        [((0.0, 0.0), (2.0, 3.0)), ((2.0, 3.0), (-4.0, 3.0)), ((-4.0, 3.0), (-4.0, 9.0))]
    );
    assert!(matches!(segments[0], Segment::Rapid { .. }));
    assert!(matches!(segments[1], Segment::Cut { .. }));
    assert_eq!((value(area.min.0), value(area.min.1)), (-4.0, 0.0));
    assert_eq!((value(area.max.0), value(area.max.1)), (2.0, 9.0));
}

#[test]
fn the_first_s_of_a_line_is_found() {
    assert_eq!(extract_s_word("M4 S1000"), Some("1000".to_owned()));
    assert_eq!(extract_s_word("m4 s12.5 F3"), Some("12.5".to_owned()));
    assert_eq!(extract_s_word("G1 X5"), None);
    assert_eq!(extract_s_word("S"), Some(String::new()));
}

#[test]
fn a_line_is_asked_about_as_it_is_read() {
    let tracer = Tracer { x: num(1.0), y: num(2.0), absolute: false };
    let ask = tracer.ask_about("G1 X5 S7", Kind::Cut, vec![Word::X(5f64.to_bits())]);
    assert_eq!(ask.x, Coordinate::Sum(num(1.0), num(5.0)));
    assert_eq!(ask.y, Coordinate::At(num(2.0)));
    assert_eq!(ask.s_own, None);
    assert_eq!(ask.s_text.as_deref(), Some("7"));
    assert!(tracer.ask("  \t ").blank);
    assert_eq!(tracer.ask("G91").kind, Kind::Relative);
    assert_eq!(tracer.ask("G0 X1").kind, Kind::Rapid);
    assert_eq!(tracer.ask("G2 X1 Y1 I1 J0").kind, Kind::Clockwise);
    assert_eq!(tracer.ask("G2 X1 Y1 R5").kind, Kind::Other);
}
