//! Drawing the preview.
use larris::raster::{
    draw_line, gcode_to_image, has_room, Canvas, Colour, Stroke, StrokeKind,
};

const BACKGROUND: Colour = Colour { r: 18, g: 18, b: 18, a: 255 };
const CUT: Colour = Colour { r: 0, g: 220, b: 80, a: 255 };
const RAPID: Colour = Colour { r: 60, g: 60, b: 80, a: 255 };
const ARC: Colour = Colour { r: 0, g: 180, b: 220, a: 255 };
const RED: Colour = Colour { r: 255, g: 0, b: 0, a: 7 };

fn empty() -> Canvas {
    gcode_to_image(64, 64, &Vec::new(), true)
}

fn points_in(canvas: &Canvas, colour: Colour) -> Vec<(u32, u32)> {
    let (w, h) = canvas.dimensions();
    let mut out = Vec::new();
    for y in 0..h {
        for x in 0..w {
            if canvas.pixel(x, y) == Some(colour) {
                out.push((x, y));
            }
        }
    }
    out
}

#[test]
fn a_preview_has_the_size_asked_for() {
    let canvas = gcode_to_image(10, 10, &Vec::new(), true);
    assert_eq!(canvas.dimensions(), (10, 10));
    let canvas = gcode_to_image(10, 100, &Vec::new(), true);
    assert_eq!(canvas.dimensions(), (10, 100));
}

#[test]
fn a_preview_without_room_shows_the_background() {
    assert!(has_room(17, 17) && !has_room(16, 17) && !has_room(17, 16));
    let strokes = vec![Stroke { kind: StrokeKind::Cut, points: vec![(0, 0), (9, 9)] }];
    let canvas = gcode_to_image(16, 40, &strokes, true);
    assert_eq!(points_in(&canvas, BACKGROUND).len(), 16 * 40);
    let canvas = gcode_to_image(17, 40, &strokes, true);
    assert_eq!(points_in(&canvas, CUT).len(), 10);
}

#[test]
fn an_empty_preview_is_all_background() {
    let canvas = empty();
    assert_eq!(points_in(&canvas, BACKGROUND).len(), 64 * 64);
    assert_eq!(canvas.pixel(63, 63), Some(BACKGROUND));
    assert_eq!(canvas.pixel(64, 0), None);
    assert_eq!(canvas.pixel(0, 64), None);
}

#[test]
fn a_line_holds_its_ends_and_has_no_gaps() {
    let mut canvas = empty();
    draw_line(&mut canvas, (2, 1), (7, 3), RED);
    assert_eq!(points_in(&canvas, RED), [(2, 1), (3, 1), (4, 2), (5, 2), (6, 3), (7, 3)]);
    let mut canvas = empty();
    draw_line(&mut canvas, (4, 9), (4, 5), RED);
    assert_eq!(points_in(&canvas, RED), [(4, 5), (4, 6), (4, 7), (4, 8), (4, 9)]);
    let mut canvas = empty();
    draw_line(&mut canvas, (3, 3), (3, 3), RED);
    assert_eq!(points_in(&canvas, RED), [(3, 3)]);
}

#[test]
fn what_lies_outside_is_left_out() {
    let mut canvas = empty();
    draw_line(&mut canvas, (-3, 0), (2, 0), RED);
    draw_line(&mut canvas, (62, 5), (70, 5), RED);
    assert_eq!(points_in(&canvas, RED), [(0, 0), (1, 0), (2, 0), (62, 5), (63, 5)]);
}

#[test]
fn strokes_are_drawn_in_their_colours_and_travel_on_demand() {
    let strokes = vec![
        Stroke { kind: StrokeKind::Rapid, points: vec![(0, 0), (5, 0)] },
        Stroke { kind: StrokeKind::Cut, points: vec![(5, 0), (5, 3)] },
        Stroke { kind: StrokeKind::Arc, points: vec![(10, 10), (12, 10), (12, 12)] },
        Stroke { kind: StrokeKind::Arc, points: vec![(40, 40)] },
    ];
    let canvas = gcode_to_image(64, 64, &strokes, true);
    assert_eq!(points_in(&canvas, RAPID), [(0, 0), (1, 0), (2, 0), (3, 0), (4, 0)]);
    assert_eq!(points_in(&canvas, CUT), [(5, 0), (5, 1), (5, 2), (5, 3)]);
    assert_eq!(
        points_in(&canvas, ARC),
        [(10, 10), (11, 10), (12, 10), (12, 11), (12, 12)]
    );
    let canvas = gcode_to_image(64, 64, &strokes, false);
    assert!(points_in(&canvas, RAPID).is_empty());
    assert_eq!(points_in(&canvas, CUT).len(), 4);
}
