//! Drawing the moves of a job into a pixel image.
use vstd::arithmetic::div_mod::{lemma_fundamental_div_mod, lemma_fundamental_div_mod_converse};
use vstd::prelude::*;

use image::{Rgba, RgbaImage};

verus! {

// ── Images ────────────────────────────────────────────────────────────────────

/// A colour with its opacity.
#[derive(Debug, Clone, Copy, PartialEq, Eq, Structural)]
pub struct Colour {
    pub r: u8,
    pub g: u8,
    pub b: u8,
    pub a: u8,
}

/// An image: an `image::RgbaImage`, which is opaque here.
#[verifier::external_body]
pub struct Canvas {
    image: RgbaImage,
}

/// The width of an image in pixels.
pub uninterp spec fn canvas_width(canvas: Canvas) -> nat;

/// The height of an image in pixels.
pub uninterp spec fn canvas_height(canvas: Canvas) -> nat;

/// The pixels of an image by column and row.
pub uninterp spec fn canvas_pixels(canvas: Canvas) -> Map<(int, int), Colour>;

/// The pixels of an image in one colour.
pub open spec fn blank(width: nat, height: nat, colour: Colour) -> Map<(int, int), Colour> {
    Map::new(|p: (int, int)| 0 <= p.0 < width && 0 <= p.1 < height, |p: (int, int)| colour)
}

impl Canvas {
    pub open spec fn inside(self, x: int, y: int) -> bool {
        0 <= x < canvas_width(self) && 0 <= y < canvas_height(self)
    }

    /// `RgbaImage::from_pixel` makes an image of the given size in one colour.
    /// It panics where the image would not fit into a vector.
    #[verifier::external_body]
    fn filled(width: u32, height: u32, colour: Colour) -> (r: Canvas)
        requires
            width * height * 4 <= isize::MAX,
        ensures
            canvas_width(r) == width,
            canvas_height(r) == height,
            canvas_pixels(r) == blank(width as nat, height as nat, colour),
    {
        let pixel = Rgba([colour.r, colour.g, colour.b, colour.a]);
        Canvas { image: RgbaImage::from_pixel(width, height, pixel) }
    }

    /// `RgbaImage::width` is the width of the image.
    #[verifier::external_body]
    fn width(&self) -> (r: u32)
        ensures
            r == canvas_width(*self),
    {
        self.image.width()
    }

    /// `RgbaImage::height` is the height of the image.
    #[verifier::external_body]
    fn height(&self) -> (r: u32)
        ensures
            r == canvas_height(*self),
    {
        self.image.height()
    }

    /// `RgbaImage::put_pixel` sets one pixel.  It panics outside the image.
    #[verifier::external_body]
    fn put(&mut self, x: u32, y: u32, colour: Colour)
        requires
            old(self).inside(x as int, y as int),
        ensures
            canvas_width(*final(self)) == canvas_width(*old(self)),
            canvas_height(*final(self)) == canvas_height(*old(self)),
            canvas_pixels(*final(self)) == canvas_pixels(*old(self)).insert(
                (x as int, y as int),
                colour,
            ),
    {
        self.image.put_pixel(x, y, Rgba([colour.r, colour.g, colour.b, colour.a]));
    }

    /// `RgbaImage::get_pixel` reads one pixel.  It panics outside the image.
    #[verifier::external_body]
    fn get(&self, x: u32, y: u32) -> (r: Colour)
        requires
            self.inside(x as int, y as int),
        ensures
            r == canvas_pixels(*self)[(x as int, y as int)],
    {
        let p = self.image.get_pixel(x, y);
        Colour { r: p.0[0], g: p.0[1], b: p.0[2], a: p.0[3] }
    }

    /// The width and the height in pixels.
    pub fn dimensions(&self) -> (r: (u32, u32))
        ensures
            r.0 == canvas_width(*self),
            r.1 == canvas_height(*self),
    {
        (self.width(), self.height())
    }

    /// The colour of a pixel, or nothing outside the image.
    pub fn pixel(&self, x: u32, y: u32) -> (r: Option<Colour>)
        ensures
            r == (if self.inside(x as int, y as int) {
                Some(canvas_pixels(*self)[(x as int, y as int)])
            } else {
                None
            }),
    {
        if x < self.width() && y < self.height() {
            Some(self.get(x, y))
        } else {
            None
        }
    }
}

// ── Lines ─────────────────────────────────────────────────────────────────────

pub open spec fn distance(a: int, b: int) -> int {
    if a < b {
        b - a
    } else {
        a - b
    }
}

/// One step from `a` towards `b`.
pub open spec fn direction(a: int, b: int) -> int {
    if a < b {
        1
    } else {
        -1
    }
}

/// `a / b` rounded to the nearest integer, halves upwards.
pub open spec fn rounded(a: int, b: int) -> int {
    if b == 0 {
        0
    } else {
        (2 * a + b) / (2 * b)
    }
}

/// The number of steps of a line: its extent along its longer axis.
pub open spec fn span(from: (int, int), to: (int, int)) -> int {
    let dx = distance(from.0, to.0);
    let dy = distance(from.1, to.1);
    if dx >= dy {
        dx
    } else {
        dy
    }
}

/// The point of a line after `k` steps along its longer axis: on the other axis,
/// the ideal line rounded to the nearest pixel.
pub open spec fn line_point(from: (int, int), to: (int, int), k: int) -> (int, int) {
    let dx = distance(from.0, to.0);
    let dy = distance(from.1, to.1);
    let sx = direction(from.0, to.0);
    let sy = direction(from.1, to.1);
    if dx >= dy {
        (from.0 + sx * k, from.1 + sy * rounded(k * dy, dx))
    } else {
        (from.0 + sx * rounded(k * dx, dy), from.1 + sy * k)
    }
}

proof fn lemma_rounded(a: int, b: int)
    requires
        b > 0,
        a >= 0,
    ensures
        2 * b * rounded(a, b) <= 2 * a + b < 2 * b * rounded(a, b) + 2 * b,
        rounded(a, b) >= 0,
{
    lemma_fundamental_div_mod(2 * a + b, 2 * b);
    let q = rounded(a, b);
    assert(2 * b * q == (2 * b) * q);
    assert(q >= 0) by (nonlinear_arith)
        requires
            (2 * b) * q > 2 * a + b - 2 * b,
            a >= 0,
            b > 0,
    ;
}

proof fn lemma_rounded_is(a: int, b: int, q: int)
    requires
        b > 0,
        2 * b * q <= 2 * a + b < 2 * b * q + 2 * b,
    ensures
        rounded(a, b) == q,
{
    assert(q * (2 * b) == 2 * b * q) by (nonlinear_arith);
    lemma_fundamental_div_mod_converse(2 * a + b, 2 * b, q, 2 * a + b - 2 * b * q);
}

/// One step along the longer axis moves the rounded line by one pixel, or not.
proof fn lemma_rounded_step(k: int, short: int, long: int)
    requires
        0 < long,
        0 <= short <= long,
        0 <= k,
    ensures
        rounded((k + 1) * short, long) == rounded(k * short, long) + (if long * (1 + 2 * rounded(
            k * short,
            long,
        )) <= 2 * short * (1 + k) {
            1int
        } else {
            0int
        }),
        2 * long * rounded(k * short, long) <= 2 * (k * short) + long,
        2 * (k * short) - long < 2 * long * rounded(k * short, long),
        rounded(k * short, long) >= 0,
{
    assert(k * short >= 0) by (nonlinear_arith)
        requires
            k >= 0,
            short >= 0,
    ;
    lemma_rounded(k * short, long);
    let q = rounded(k * short, long);
    assert((k + 1) * short == k * short + short) by (nonlinear_arith);
    assert(2 * short * (1 + k) == 2 * (k * short) + 2 * short) by (nonlinear_arith);
    assert(long * (1 + 2 * q) == long + 2 * long * q) by (nonlinear_arith);
    assert(2 * long * (q + 1) == 2 * long * q + 2 * long) by (nonlinear_arith);
    if long * (1 + 2 * q) <= 2 * short * (1 + k) {
        lemma_rounded_is((k + 1) * short, long, q + 1);
    } else {
        lemma_rounded_is((k + 1) * short, long, q);
    }
}

proof fn lemma_rounded_ends(short: int, long: int)
    requires
        0 < long,
        0 <= short,
    ensures
        rounded(0 * short, long) == 0,
        rounded(long * short, long) == short,
{
    lemma_rounded_is(0, long, 0);
    assert(2 * long * short == 2 * (long * short)) by (nonlinear_arith);
    lemma_rounded_is(long * short, long, short);
}

proof fn lemma_rounded_monotone(k: int, short: int, long: int)
    requires
        0 < long,
        0 <= short <= long,
        0 <= k <= long,
    ensures
        0 <= rounded(k * short, long) <= short,
    decreases long - k,
{
    lemma_rounded_step(k, short, long);
    if k == long {
        lemma_rounded_ends(short, long);
    } else {
        lemma_rounded_monotone(k + 1, short, long);
    }
}

proof fn lemma_signed(a: int, b: int, v: int)
    ensures
        a < b ==> direction(a, b) * v == v,
        a >= b ==> direction(a, b) * v == -v,
{
    assert(1 * v == v);
    assert((-1) * v == -v);
}

/// A line starts and ends where it should.
pub proof fn line_joins_its_ends(from: (int, int), to: (int, int))
    ensures
        line_point(from, to, 0) == from,
        line_point(from, to, span(from, to)) == to,
        span(from, to) >= 0,
{
    let dx = distance(from.0, to.0);
    let dy = distance(from.1, to.1);
    lemma_signed(from.0, to.0, dx);
    lemma_signed(from.1, to.1, dy);
    lemma_signed(from.0, to.0, 0);
    lemma_signed(from.1, to.1, 0);
    if dx >= dy {
        if dx > 0 {
            lemma_rounded_ends(dy, dx);
        }
    } else {
        lemma_rounded_ends(dx, dy);
    }
}

/// Neighbouring points of a line are one pixel apart on the longer axis and at
/// most one on the other.
pub proof fn line_has_no_gaps(from: (int, int), to: (int, int), k: int)
    requires
        0 <= k < span(from, to),
    ensures
        ({
            let p = line_point(from, to, k);
            let q = line_point(from, to, k + 1);
            distance(p.0, q.0) <= 1 && distance(p.1, q.1) <= 1 && p != q
        }),
{
    let dx = distance(from.0, to.0);
    let dy = distance(from.1, to.1);
    let sx = direction(from.0, to.0);
    let sy = direction(from.1, to.1);
    if dx >= dy {
        lemma_rounded_step(k, dy, dx);
        let a = rounded(k * dy, dx);
        assert(sx * (k + 1) == sx * k + sx) by (nonlinear_arith);
        assert(sy * (a + 1) == sy * a + sy) by (nonlinear_arith);
    } else {
        lemma_rounded_step(k, dx, dy);
        let a = rounded(k * dx, dy);
        assert(sy * (k + 1) == sy * k + sy) by (nonlinear_arith);
        assert(sx * (a + 1) == sx * a + sx) by (nonlinear_arith);
    }
}

/// The part of a coordinate that an image index can hold.
pub open spec fn index_of(v: int) -> int {
    v % 0x1_0000_0000
}

/// The place where a point is drawn: none where a coordinate is negative, else
/// the place of its index if that is in the image.
pub open spec fn drawn_at(x: int, y: int, width: nat, height: nat) -> Option<(int, int)> {
    if x >= 0 && y >= 0 && index_of(x) < width && index_of(y) < height {
        Some((index_of(x), index_of(y)))
    } else {
        None
    }
}

/// The pixels with one point drawn.
pub open spec fn dotted(
    pixels: Map<(int, int), Colour>,
    width: nat,
    height: nat,
    p: (int, int),
    colour: Colour,
) -> Map<(int, int), Colour> {
    match drawn_at(p.0, p.1, width, height) {
        Some(place) => pixels.insert(place, colour),
        None => pixels,
    }
}

/// The pixels with the first `n` points of a line drawn.
pub open spec fn lined(
    pixels: Map<(int, int), Colour>,
    width: nat,
    height: nat,
    from: (int, int),
    to: (int, int),
    colour: Colour,
    n: nat,
) -> Map<(int, int), Colour>
    decreases n,
{
    if n == 0 {
        pixels
    } else {
        dotted(
            lined(pixels, width, height, from, to, colour, (n - 1) as nat),
            width,
            height,
            line_point(from, to, n - 1),
            colour,
        )
    }
}

/// After a line is drawn, a pixel has its colour if a point of the line falls on
/// it, and else the colour from before.
pub proof fn a_line_colours_its_points(
    pixels: Map<(int, int), Colour>,
    width: nat,
    height: nat,
    from: (int, int),
    to: (int, int),
    colour: Colour,
    n: nat,
    place: (int, int),
)
    ensures
        ({
            let after = lined(pixels, width, height, from, to, colour, n);
            let hit = exists|k: int|
                0 <= k < n && #[trigger] drawn_at(
                    line_point(from, to, k).0,
                    line_point(from, to, k).1,
                    width,
                    height,
                ) == Some(place);
            &&& hit ==> after.dom().contains(place) && after[place] == colour
            &&& !hit ==> after.dom().contains(place) == pixels.dom().contains(place)
                && after[place] == pixels[place]
        }),
    decreases n,
{
    if n > 0 {
        a_line_colours_its_points(pixels, width, height, from, to, colour, (n - 1) as nat, place);
        let last = line_point(from, to, n - 1);
        if drawn_at(last.0, last.1, width, height) == Some(place) {
            assert(0 <= n - 1 < n);
        }
    }
}

fn put_pixel_safe(canvas: &mut Canvas, x: i64, y: i64, colour: Colour)
    ensures
        canvas_width(*final(canvas)) == canvas_width(*old(canvas)),
        canvas_height(*final(canvas)) == canvas_height(*old(canvas)),
        canvas_pixels(*final(canvas)) == dotted(
            canvas_pixels(*old(canvas)),
            canvas_width(*old(canvas)),
            canvas_height(*old(canvas)),
            (x as int, y as int),
            colour,
        ),
{
    if x >= 0 && y >= 0 {
        let px: u32 = (x as u64 % 0x1_0000_0000) as u32;
        let py: u32 = (y as u64 % 0x1_0000_0000) as u32;
        if px < canvas.width() && py < canvas.height() {
            canvas.put(px, py, colour);
        }
    }
}

/// A coordinate whose differences and their multiples fit into an `i64`.
pub open spec fn drawable(p: (i64, i64)) -> bool {
    -0x1000_0000_0000_0000 <= p.0 <= 0x1000_0000_0000_0000 && -0x1000_0000_0000_0000 <= p.1
        <= 0x1000_0000_0000_0000
}

/// The point as integers.
pub open spec fn ints(p: (i64, i64)) -> (int, int) {
    (p.0 as int, p.1 as int)
}

/// Draw a line from one point to another, both ends included.  What lies outside
/// the image is left out.
pub fn draw_line(canvas: &mut Canvas, from: (i64, i64), to: (i64, i64), colour: Colour)
    requires
        drawable(from),
        drawable(to),
    ensures
        canvas_width(*final(canvas)) == canvas_width(*old(canvas)),
        canvas_height(*final(canvas)) == canvas_height(*old(canvas)),
        canvas_pixels(*final(canvas)) == lined(
            canvas_pixels(*old(canvas)),
            canvas_width(*old(canvas)),
            canvas_height(*old(canvas)),
            ints(from),
            ints(to),
            colour,
            (span(ints(from), ints(to)) + 1) as nat,
        ),
{
    let (mut x0, mut y0) = from;
    let (x1, y1) = to;
    let dx: i64 = if x1 > x0 {
        x1 - x0
    } else {
        x0 - x1
    };
    let dy: i64 = if y1 > y0 {
        -(y1 - y0)
    } else {
        -(y0 - y1)
    };
    let sx: i64 = if x0 < x1 {
        1
    } else {
        -1
    };
    let sy: i64 = if y0 < y1 {
        1
    } else {
        -1
    };
    let mut err: i64 = dx + dy;
    let ghost w = canvas_width(*canvas);
    let ghost h = canvas_height(*canvas);
    let ghost before = canvas_pixels(*canvas);
    let ghost f = ints(from);
    let ghost t = ints(to);
    let ghost mut k: int = 0;
    let ghost mut i: int = 0;
    let ghost mut j: int = 0;
    let ghost long = span(f, t);
    let ghost ady: int = -(dy as int);
    proof {
        line_joins_its_ends(f, t);
        assert(dx * (1 + j) == dx) by (nonlinear_arith)
            requires
                j == 0,
        ;
        assert(ady * (1 + i) == ady) by (nonlinear_arith)
            requires
                i == 0,
        ;
        if dx >= ady && dx > 0 {
            lemma_rounded_ends(ady, dx as int);
        } else if dx < ady {
            lemma_rounded_ends(dx as int, ady);
        }
    }
    loop
        invariant
            drawable(from),
            drawable(to),
            f == ints(from),
            t == ints(to),
            x1 == to.0,
            y1 == to.1,
            dx == distance(f.0, t.0),
            ady == distance(f.1, t.1),
            dy == -ady,
            sx == direction(f.0, t.0),
            sy == direction(f.1, t.1),
            long == span(f, t),
            0 <= k <= long,
            dx >= ady ==> i == k && j == rounded(k * ady, dx as int),
            dx < ady ==> j == k && i == rounded(k * dx, ady),
            x0 == f.0 + sx * i,
            y0 == f.1 + sy * j,
            err == dx * (1 + j) - ady * (1 + i),
            (x0 as int, y0 as int) == line_point(f, t, k),
            canvas_width(*canvas) == w,
            canvas_height(*canvas) == h,
            canvas_pixels(*canvas) == lined(before, w, h, f, t, colour, k as nat),
            w == canvas_width(*old(canvas)),
            h == canvas_height(*old(canvas)),
            before == canvas_pixels(*old(canvas)),
        decreases long - k,
    {
        put_pixel_safe(canvas, x0, y0, colour);
        assert(canvas_pixels(*canvas) == lined(before, w, h, f, t, colour, (k + 1) as nat));
        if x0 == x1 && y0 == y1 {
            proof {
                lemma_at_the_end(f, t, k);
            }
            return;
        }
        proof {
            if k == long {
                line_joins_its_ends(f, t);
            }
            lemma_step(f, t, k, i, j, err as int);
        }
        let e2: i64 = 2 * err;
        if e2 >= dy {
            err = err + dy;
            x0 = x0 + sx;
            proof {
                assert(sx * (i + 1) == sx * i + sx) by (nonlinear_arith);
                assert(ady * (1 + (i + 1)) == ady * (1 + i) + ady) by (nonlinear_arith);
                i = i + 1;
            }
        }
        if e2 <= dx {
            err = err + dx;
            y0 = y0 + sy;
            proof {
                assert(sy * (j + 1) == sy * j + sy) by (nonlinear_arith);
                assert(dx * (1 + (j + 1)) == dx * (1 + j) + dx) by (nonlinear_arith);
                j = j + 1;
            }
        }
        proof {
            k = k + 1;
        }
    }
}

/// Only the last point of a line is its end.
proof fn lemma_at_the_end(f: (int, int), t: (int, int), k: int)
    requires
        0 <= k <= span(f, t),
        line_point(f, t, k) == t,
    ensures
        k == span(f, t),
{
    lemma_signed(f.0, t.0, k);
    lemma_signed(f.1, t.1, k);
}

/// What one round of the loop relies on: the error term tells which axes step,
/// the step leads to the next point, and nothing overflows.
proof fn lemma_step(f: (int, int), t: (int, int), k: int, i: int, j: int, err: int)
    requires
        -0x1000_0000_0000_0000 <= f.0 <= 0x1000_0000_0000_0000,
        -0x1000_0000_0000_0000 <= f.1 <= 0x1000_0000_0000_0000,
        -0x1000_0000_0000_0000 <= t.0 <= 0x1000_0000_0000_0000,
        -0x1000_0000_0000_0000 <= t.1 <= 0x1000_0000_0000_0000,
        0 <= k < span(f, t),
        distance(f.0, t.0) >= distance(f.1, t.1) ==> i == k && j == rounded(
            k * distance(f.1, t.1),
            distance(f.0, t.0),
        ),
        distance(f.0, t.0) < distance(f.1, t.1) ==> j == k && i == rounded(
            k * distance(f.0, t.0),
            distance(f.1, t.1),
        ),
        err == distance(f.0, t.0) * (1 + j) - distance(f.1, t.1) * (1 + i),
    ensures
        ({
            let dx = distance(f.0, t.0);
            let dy = distance(f.1, t.1);
            let i2 = if 2 * err >= -dy {
                i + 1
            } else {
                i
            };
            let j2 = if 2 * err <= dx {
                j + 1
            } else {
                j
            };
            &&& -0x4000_0000_0000_0000 < err < 0x4000_0000_0000_0000
            &&& -0x7000_0000_0000_0000 < err - dy < 0x7000_0000_0000_0000
            &&& dx >= dy ==> i2 == k + 1 && j2 == rounded((k + 1) * dy, dx)
            &&& dx < dy ==> j2 == k + 1 && i2 == rounded((k + 1) * dx, dy)
            &&& (f.0 + direction(f.0, t.0) * i2, f.1 + direction(f.1, t.1) * j2) == line_point(
                f,
                t,
                k + 1,
            )
            &&& -0x2000_0000_0000_0000 <= f.0 + direction(f.0, t.0) * i2 <= 0x2000_0000_0000_0000
            &&& -0x2000_0000_0000_0000 <= f.1 + direction(f.1, t.1) * j2 <= 0x2000_0000_0000_0000
        }),
{
    let dx = distance(f.0, t.0);
    let dy = distance(f.1, t.1);
    lemma_signed(f.0, t.0, i);
    lemma_signed(f.0, t.0, i + 1);
    lemma_signed(f.1, t.1, j);
    lemma_signed(f.1, t.1, j + 1);
    if dx >= dy {
        lemma_rounded_step(k, dy, dx);
        lemma_rounded_monotone(k + 1, dy, dx);
        assert(dx * (1 + j) == dx + dx * j) by (nonlinear_arith);
        assert(dy * (1 + i) == dy + k * dy) by (nonlinear_arith)
            requires
                i == k,
        ;
        assert(2 * dx * j == 2 * (dx * j)) by (nonlinear_arith);
        assert(dx * (1 + 2 * j) == dx + 2 * (dx * j)) by (nonlinear_arith);
        assert(2 * dy * (1 + k) == 2 * dy + 2 * (k * dy)) by (nonlinear_arith);
    } else {
        lemma_rounded_step(k, dx, dy);
        lemma_rounded_monotone(k + 1, dx, dy);
        assert(dy * (1 + i) == dy + dy * i) by (nonlinear_arith);
        assert(dx * (1 + j) == dx + k * dx) by (nonlinear_arith)
            requires
                j == k,
        ;
        assert(2 * dy * i == 2 * (dy * i)) by (nonlinear_arith);
        assert(dy * (1 + 2 * i) == dy + 2 * (dy * i)) by (nonlinear_arith);
        assert(2 * dx * (1 + k) == 2 * dx + 2 * (k * dx)) by (nonlinear_arith);
    }
}

// ── The preview ───────────────────────────────────────────────────────────────

/// What a stroke of the preview stands for.
#[derive(Debug, Clone, Copy, PartialEq, Eq, Structural)]
pub enum StrokeKind {
    Rapid,
    Cut,
    Arc,
}

/// A stroke of the preview: straight lines from point to point.
#[derive(Debug)]
pub struct Stroke {
    pub kind: StrokeKind,
    pub points: Vec<(i64, i64)>,
}

/// A stroke, with its points as integers.
pub struct Path {
    pub kind: StrokeKind,
    pub points: Seq<(int, int)>,
}

impl View for Stroke {
    type V = Path;

    open spec fn view(&self) -> Path {
        Path { kind: self.kind, points: self.points@.map_values(|p: (i64, i64)| ints(p)) }
    }
}

pub open spec fn paths(v: Seq<Stroke>) -> Seq<Path> {
    v.map_values(|s: Stroke| s@)
}

/// The colour behind the strokes.
pub open spec fn background() -> Colour {
    Colour { r: 18, g: 18, b: 18, a: 255 }
}

impl StrokeKind {
    /// The colour of a stroke.
    pub open spec fn colour(self) -> Colour {
        match self {
            StrokeKind::Rapid => Colour { r: 60, g: 60, b: 80, a: 255 },
            StrokeKind::Cut => Colour { r: 0, g: 220, b: 80, a: 255 },
            StrokeKind::Arc => Colour { r: 0, g: 180, b: 220, a: 255 },
        }
    }

    fn pen(self) -> (r: Colour)
        ensures
            r == self.colour(),
    {
        match self {
            StrokeKind::Rapid => Colour { r: 60, g: 60, b: 80, a: 255 },
            StrokeKind::Cut => Colour { r: 0, g: 220, b: 80, a: 255 },
            StrokeKind::Arc => Colour { r: 0, g: 180, b: 220, a: 255 },
        }
    }
}

/// The pixels with lines drawn from point to point along the first `n` points.
pub open spec fn traced(
    pixels: Map<(int, int), Colour>,
    width: nat,
    height: nat,
    points: Seq<(int, int)>,
    colour: Colour,
    n: nat,
) -> Map<(int, int), Colour>
    decreases n,
{
    if n < 2 {
        pixels
    } else {
        let from = points[n - 2];
        let to = points[n - 1];
        lined(
            traced(pixels, width, height, points, colour, (n - 1) as nat),
            width,
            height,
            from,
            to,
            colour,
            (span(from, to) + 1) as nat,
        )
    }
}

/// The pixels with the strokes drawn in order; rapid moves only if wanted.
pub open spec fn sketched(
    pixels: Map<(int, int), Colour>,
    width: nat,
    height: nat,
    strokes: Seq<Path>,
    travel: bool,
) -> Map<(int, int), Colour>
    decreases strokes.len(),
{
    if strokes.len() == 0 {
        pixels
    } else {
        let last = strokes.last();
        let before = sketched(pixels, width, height, strokes.drop_last(), travel);
        if last.kind is Rapid && !travel {
            before
        } else {
            traced(before, width, height, last.points, last.kind.colour(), last.points.len())
        }
    }
}

/// The margin round the strokes of a preview, in pixels.
pub const MARGIN: u32 = 8;

/// Whether a preview has room for strokes within its margins.
pub open spec fn roomy(width: u32, height: u32) -> bool {
    width > 2 * MARGIN && height > 2 * MARGIN
}

/// Whether a preview has room for strokes within its margins.
pub fn has_room(width: u32, height: u32) -> (r: bool)
    ensures
        r == roomy(width, height),
{
    width > 2 * MARGIN && height > 2 * MARGIN
}

fn draw_stroke(canvas: &mut Canvas, stroke: &Stroke)
    requires
        forall|i: int| 0 <= i < stroke.points@.len() ==> drawable(#[trigger] stroke.points@[i]),
    ensures
        canvas_width(*final(canvas)) == canvas_width(*old(canvas)),
        canvas_height(*final(canvas)) == canvas_height(*old(canvas)),
        canvas_pixels(*final(canvas)) == traced(
            canvas_pixels(*old(canvas)),
            canvas_width(*old(canvas)),
            canvas_height(*old(canvas)),
            stroke@.points,
            stroke.kind.colour(),
            stroke.points@.len(),
        ),
{
    let ghost w = canvas_width(*canvas);
    let ghost h = canvas_height(*canvas);
    let ghost before = canvas_pixels(*canvas);
    let colour = stroke.kind.pen();
    let mut i: usize = 1;
    while i < stroke.points.len()
        invariant
            1 <= i,
            i <= stroke.points@.len() || (stroke.points@.len() == 0 && i == 1),
            forall|i: int| 0 <= i < stroke.points@.len() ==> drawable(#[trigger] stroke.points@[i]),
            colour == stroke.kind.colour(),
            canvas_width(*canvas) == w,
            canvas_height(*canvas) == h,
            w == canvas_width(*old(canvas)),
            h == canvas_height(*old(canvas)),
            before == canvas_pixels(*old(canvas)),
            canvas_pixels(*canvas) == traced(before, w, h, stroke@.points, colour, i as nat),
        decreases stroke.points@.len() - i,
    {
        assert(stroke@.points[i - 1] == ints(stroke.points@[i - 1]));
        assert(stroke@.points[i as int] == ints(stroke.points@[i as int]));
        draw_line(canvas, stroke.points[i - 1], stroke.points[i], colour);
        i = i + 1;
    }
    assert(traced(before, w, h, stroke@.points, colour, 0) == traced(
        before,
        w,
        h,
        stroke@.points,
        colour,
        1,
    ));
}

/// Draw a preview of the strokes, given in pixels, in an image of a size; one
/// that is too small for its margins shows the background only.
pub fn gcode_to_image(max_w: u32, max_h: u32, strokes: &Vec<Stroke>, travel: bool) -> (r: Canvas)
    requires
        max_w * max_h * 4 <= isize::MAX,
        forall|k: int, i: int|
            #![trigger strokes@[k].points@[i]]
            0 <= k < strokes@.len() && 0 <= i < strokes@[k].points@.len() ==> drawable(
                strokes@[k].points@[i],
            ),
    ensures
        canvas_width(r) == max_w,
        canvas_height(r) == max_h,
        canvas_pixels(r) == (if roomy(max_w, max_h) {
            sketched(
                blank(max_w as nat, max_h as nat, background()),
                max_w as nat,
                max_h as nat,
                paths(strokes@),
                travel,
            )
        } else {
            blank(max_w as nat, max_h as nat, background())
        }),
{
    let w: u32 = max_w;
    let h: u32 = max_h;
    let mut canvas = Canvas::filled(w, h, Colour { r: 18, g: 18, b: 18, a: 255 });
    if !has_room(w, h) {
        return canvas;
    }
    let ghost start = blank(w as nat, h as nat, background());
    let ghost all = paths(strokes@);
    let mut k: usize = 0;
    assert(all.take(0) == Seq::<Path>::empty());
    while k < strokes.len()
        invariant
            k <= strokes@.len(),
            all == paths(strokes@),
            canvas_width(canvas) == w,
            canvas_height(canvas) == h,
            canvas_pixels(canvas) == sketched(start, w as nat, h as nat, all.take(k as int), travel),
            forall|k: int, i: int|
                #![trigger strokes@[k].points@[i]]
                0 <= k < strokes@.len() && 0 <= i < strokes@[k].points@.len() ==> drawable(
                    strokes@[k].points@[i],
                ),
        decreases strokes@.len() - k,
    {
        assert(all.take(k + 1).drop_last() == all.take(k as int));
        assert(all.take(k + 1).last() == strokes@[k as int]@);
        let rapid = match strokes[k].kind {
            StrokeKind::Rapid => true,
            _ => false,
        };
        if travel || !rapid {
            draw_stroke(&mut canvas, &strokes[k]);
        }
        k = k + 1;
    }
    assert(all.take(k as int) == all);
    canvas
}

// ── Laws ──────────────────────────────────────────────────────────────────────

/// A point inside the image is drawn where it is, and one outside nowhere.
pub proof fn a_point_is_drawn_where_it_is(x: int, y: int, width: nat, height: nat)
    requires
        width <= u32::MAX,
        height <= u32::MAX,
    ensures
        0 <= x < width && 0 <= y < height ==> drawn_at(x, y, width, height) == Some((x, y)),
        x < 0 || y < 0 ==> drawn_at(x, y, width, height) is None,
        width <= x <= u32::MAX || height <= y <= u32::MAX ==> drawn_at(x, y, width, height) is None,
{
    if 0 <= x <= u32::MAX {
        assert(x % 0x1_0000_0000 == x);
    }
    if 0 <= y <= u32::MAX {
        assert(y % 0x1_0000_0000 == y);
    }
}

/// Every point of a line that lies in the image has the line's colour afterwards,
/// at its own place.
pub proof fn a_line_is_seen_where_it_runs(
    pixels: Map<(int, int), Colour>,
    width: nat,
    height: nat,
    from: (int, int),
    to: (int, int),
    colour: Colour,
    k: int,
)
    requires
        width <= u32::MAX,
        height <= u32::MAX,
        0 <= k <= span(from, to),
        0 <= line_point(from, to, k).0 < width,
        0 <= line_point(from, to, k).1 < height,
    ensures
        ({
            let after = lined(
                pixels,
                width,
                height,
                from,
                to,
                colour,
                (span(from, to) + 1) as nat,
            );
            after.dom().contains(line_point(from, to, k)) && after[line_point(from, to, k)]
                == colour
        }),
{
    let p = line_point(from, to, k);
    let n = (span(from, to) + 1) as nat;
    a_point_is_drawn_where_it_is(p.0, p.1, width, height);
    a_line_colours_its_points(pixels, width, height, from, to, colour, n, p);
    assert(0 <= k < n && drawn_at(
        line_point(from, to, k).0,
        line_point(from, to, k).1,
        width,
        height,
    ) == Some(p));
}

/// Where the ends of a line lie in the image, they have its colour afterwards.
pub proof fn both_ends_of_a_line_are_drawn(
    pixels: Map<(int, int), Colour>,
    width: nat,
    height: nat,
    from: (int, int),
    to: (int, int),
    colour: Colour,
)
    requires
        width <= u32::MAX,
        height <= u32::MAX,
        0 <= from.0 < width,
        0 <= from.1 < height,
        0 <= to.0 < width,
        0 <= to.1 < height,
    ensures
        ({
            let after = lined(
                pixels,
                width,
                height,
                from,
                to,
                colour,
                (span(from, to) + 1) as nat,
            );
            after[from] == colour && after[to] == colour
        }),
{
    line_joins_its_ends(from, to);
    a_line_is_seen_where_it_runs(pixels, width, height, from, to, colour, 0);
    a_line_is_seen_where_it_runs(pixels, width, height, from, to, colour, span(from, to));
}

/// A line runs from end to end: along its longer axis it steps one pixel towards
/// the end each time, and no point is further than half a pixel from the straight
/// line between the ends, nor outside the box that they span.
pub proof fn a_line_is_straight(from: (int, int), to: (int, int), k: int)
    requires
        0 <= k <= span(from, to),
    ensures
        ({
            let (dx, dy) = (to.0 - from.0, to.1 - from.1);
            let p = line_point(from, to, k);
            let (x, y) = (p.0 - from.0, p.1 - from.1);
            let long = if distance(0, dx) >= distance(0, dy) {
                distance(0, dx)
            } else {
                distance(0, dy)
            };
            &&& span(from, to) == long
            &&& k == (if distance(0, x) >= distance(0, y) {
                distance(0, x)
            } else {
                distance(0, y)
            })
            &&& -long <= 2 * (x * dy - y * dx) <= long
            &&& from.0 <= p.0 <= to.0 || to.0 <= p.0 <= from.0
            &&& from.1 <= p.1 <= to.1 || to.1 <= p.1 <= from.1
        }),
{
    let (dx, dy) = (distance(from.0, to.0), distance(from.1, to.1));
    let p = line_point(from, to, k);
    let (x, y) = (p.0 - from.0, p.1 - from.1);
    let (ex, ey) = (to.0 - from.0, to.1 - from.1);
    if dx == 0 && dy == 0 {
        lemma_signed(from.0, to.0, k);
        lemma_signed(from.1, to.1, 0);
    } else if dx >= dy {
        let q = rounded(k * dy, dx);
        lemma_rounded_step(k, dy, dx);
        lemma_rounded_monotone(k, dy, dx);
        lemma_signed(from.0, to.0, k);
        lemma_signed(from.1, to.1, q);
        lemma_below_the_longer(k, dy, dx, q);
        assert(2 * (x * ey - y * ex) == 2 * (k * dy) - 2 * dx * q || 2 * (x * ey - y * ex) == 2 * dx
            * q - 2 * (k * dy)) by (nonlinear_arith)
            requires
                x == k && ex == dx || x == -k && ex == -dx,
                y == q && ey == dy || y == -q && ey == -dy,
        ;
    } else {
        let q = rounded(k * dx, dy);
        lemma_rounded_step(k, dx, dy);
        lemma_rounded_monotone(k, dx, dy);
        lemma_signed(from.0, to.0, q);
        lemma_signed(from.1, to.1, k);
        lemma_below_the_longer(k, dx, dy, q);
        assert(2 * (x * ey - y * ex) == 2 * (k * dx) - 2 * dy * q || 2 * (x * ey - y * ex) == 2 * dy
            * q - 2 * (k * dx)) by (nonlinear_arith)
            requires
                x == q && ex == dx || x == -q && ex == -dx,
                y == k && ey == dy || y == -k && ey == -dy,
        ;
    }
}

/// The rounded line does not outrun its longer axis.
proof fn lemma_below_the_longer(k: int, short: int, long: int, q: int)
    requires
        0 < long,
        0 <= short <= long,
        0 <= k,
        2 * long * q <= 2 * (k * short) + long,
    ensures
        q <= k,
{
    assert(q <= k) by (nonlinear_arith)
        requires
            0 < long,
            0 <= short <= long,
            0 <= k,
            2 * long * q <= 2 * (k * short) + long,
    ;
}

/// Pixels outside the box that the ends of a line span keep their colours.
pub proof fn a_line_stays_in_its_box(
    pixels: Map<(int, int), Colour>,
    width: nat,
    height: nat,
    from: (int, int),
    to: (int, int),
    colour: Colour,
    place: (int, int),
)
    requires
        -0x1_0000_0000 <= from.0 < 0x1_0000_0000,
        -0x1_0000_0000 <= from.1 < 0x1_0000_0000,
        -0x1_0000_0000 <= to.0 < 0x1_0000_0000,
        -0x1_0000_0000 <= to.1 < 0x1_0000_0000,
        (place.0 < from.0 && place.0 < to.0) || (from.0 < place.0 && to.0 < place.0) || (place.1
            < from.1 && place.1 < to.1) || (from.1 < place.1 && to.1 < place.1),
    ensures
        lined(pixels, width, height, from, to, colour, (span(from, to) + 1) as nat)[place]
            == pixels[place],
{
    let n = (span(from, to) + 1) as nat;
    a_line_colours_its_points(pixels, width, height, from, to, colour, n, place);
    assert forall|k: int| 0 <= k < n implies #[trigger] drawn_at(
        line_point(from, to, k).0,
        line_point(from, to, k).1,
        width,
        height,
    ) != Some(place) by {
        a_line_is_straight(from, to, k);
    }
}

/// After a stroke every pair of neighbouring points is joined by a line in its
/// colour, as far as it lies in the image.
pub proof fn a_stroke_joins_its_points(
    pixels: Map<(int, int), Colour>,
    width: nat,
    height: nat,
    points: Seq<(int, int)>,
    colour: Colour,
    n: nat,
    i: int,
    k: int,
)
    requires
        width <= u32::MAX,
        height <= u32::MAX,
        0 <= i,
        i + 1 < n,
        n <= points.len(),
        0 <= k <= span(points[i], points[i + 1]),
        0 <= line_point(points[i], points[i + 1], k).0 < width,
        0 <= line_point(points[i], points[i + 1], k).1 < height,
    ensures
        traced(pixels, width, height, points, colour, n)[line_point(points[i], points[i + 1], k)]
            == colour,
    decreases n,
{
    let place = line_point(points[i], points[i + 1], k);
    let (from, to) = (points[n - 2], points[n - 1]);
    let before = traced(pixels, width, height, points, colour, (n - 1) as nat);
    if i + 2 == n {
        a_line_is_seen_where_it_runs(before, width, height, from, to, colour, k);
    } else {
        a_stroke_joins_its_points(pixels, width, height, points, colour, (n - 1) as nat, i, k);
        a_line_colours_its_points(
            before,
            width,
            height,
            from,
            to,
            colour,
            (span(from, to) + 1) as nat,
            place,
        );
    }
}

proof fn lemma_a_stroke_has_one_colour(
    pixels: Map<(int, int), Colour>,
    width: nat,
    height: nat,
    points: Seq<(int, int)>,
    colour: Colour,
    n: nat,
    place: (int, int),
)
    ensures
        ({
            let after = traced(pixels, width, height, points, colour, n)[place];
            after == pixels[place] || after == colour
        }),
    decreases n,
{
    if n >= 2 {
        let before = traced(pixels, width, height, points, colour, (n - 1) as nat);
        let (from, to) = (points[n - 2], points[n - 1]);
        lemma_a_stroke_has_one_colour(
            pixels,
            width,
            height,
            points,
            colour,
            (n - 1) as nat,
            place,
        );
        a_line_colours_its_points(
            before,
            width,
            height,
            from,
            to,
            colour,
            (span(from, to) + 1) as nat,
            place,
        );
    }
}

/// The stroke drawn last is seen whole: every one of its lines has the colour of
/// its kind.  A rapid move is drawn only if travel is wanted; if it is not, the
/// picture is the one without it.
pub proof fn the_last_stroke_is_on_top(
    pixels: Map<(int, int), Colour>,
    width: nat,
    height: nat,
    strokes: Seq<Path>,
    last: Path,
    i: int,
    k: int,
)
    requires
        width <= u32::MAX,
        height <= u32::MAX,
        0 <= i,
        i + 1 < last.points.len(),
        0 <= k <= span(last.points[i], last.points[i + 1]),
        0 <= line_point(last.points[i], last.points[i + 1], k).0 < width,
        0 <= line_point(last.points[i], last.points[i + 1], k).1 < height,
    ensures
        ({
            let p = line_point(last.points[i], last.points[i + 1], k);
            let all = strokes.push(last);
            &&& sketched(pixels, width, height, all, true)[p] == last.kind.colour()
            &&& !(last.kind is Rapid) ==> sketched(pixels, width, height, all, false)[p]
                == last.kind.colour()
            &&& last.kind is Rapid ==> sketched(pixels, width, height, all, false) == sketched(
                pixels,
                width,
                height,
                strokes,
                false,
            )
        }),
{
    let all = strokes.push(last);
    assert(all.drop_last() == strokes);
    assert(all.last() == last);
    a_stroke_joins_its_points(
        sketched(pixels, width, height, strokes, true),
        width,
        height,
        last.points,
        last.kind.colour(),
        last.points.len(),
        i,
        k,
    );
    a_stroke_joins_its_points(
        sketched(pixels, width, height, strokes, false),
        width,
        height,
        last.points,
        last.kind.colour(),
        last.points.len(),
        i,
        k,
    );
}

/// A pixel that changes has the colour of one of the strokes, and of a rapid move
/// only if travel is wanted.
pub proof fn every_pixel_is_that_of_a_stroke(
    pixels: Map<(int, int), Colour>,
    width: nat,
    height: nat,
    strokes: Seq<Path>,
    travel: bool,
    place: (int, int),
)
    ensures
        ({
            let after = sketched(pixels, width, height, strokes, travel)[place];
            after != pixels[place] ==> exists|i: int|
                0 <= i < strokes.len() && after == (#[trigger] strokes[i]).kind.colour() && (travel
                    || !(strokes[i].kind is Rapid))
        }),
    decreases strokes.len(),
{
    if strokes.len() > 0 {
        let rest = strokes.drop_last();
        let last = strokes.last();
        every_pixel_is_that_of_a_stroke(pixels, width, height, rest, travel, place);
        let before = sketched(pixels, width, height, rest, travel);
        let after = sketched(pixels, width, height, strokes, travel)[place];
        lemma_a_stroke_has_one_colour(
            before,
            width,
            height,
            last.points,
            last.kind.colour(),
            last.points.len(),
            place,
        );
        if after != pixels[place] {
            if after == before[place] {
                let i = choose|i: int|
                    0 <= i < rest.len() && after == (#[trigger] rest[i]).kind.colour() && (travel
                        || !(rest[i].kind is Rapid));
                assert(strokes[i] == rest[i]);
            } else {
                assert(strokes[strokes.len() - 1] == last);
            }
        }
    }
}

/// The kinds of strokes and the background are told apart by their colours, all
/// of them opaque, and a rapid move is darker than what burns.
pub proof fn colours_are_told_apart(a: StrokeKind, b: StrokeKind)
    ensures
        a.colour() == b.colour() ==> a == b,
        a.colour() != background(),
        a.colour().a == 255 && background().a == 255,
        !(a is Rapid) ==> StrokeKind::Rapid.colour().g < a.colour().g,
        background().r == background().g == background().b,
        StrokeKind::Cut.colour().b < StrokeKind::Cut.colour().g,
        StrokeKind::Arc.colour().g < StrokeKind::Arc.colour().b,
        StrokeKind::Rapid.colour() == (Colour { r: 60, g: 60, b: 80, a: 255 }),
        StrokeKind::Cut.colour() == (Colour { r: 0, g: 220, b: 80, a: 255 }),
        StrokeKind::Arc.colour() == (Colour { r: 0, g: 180, b: 220, a: 255 }),
        background() == (Colour { r: 18, g: 18, b: 18, a: 255 }),
{
}

/// A blank image has one colour everywhere in it and nothing outside.
pub proof fn a_blank_image_is_filled(width: nat, height: nat, colour: Colour, x: int, y: int)
    ensures
        blank(width, height, colour).dom().contains((x, y)) <==> 0 <= x < width && 0 <= y < height,
        0 <= x < width && 0 <= y < height ==> blank(width, height, colour)[(x, y)] == colour,
{
}

/// A preview has room as soon as one pixel is left between two margins of eight.
pub proof fn room_is_what_the_margins_leave(width: u32, height: u32)
    ensures
        roomy(width, height) <==> width - 8 - 8 >= 1 && height - 8 - 8 >= 1,
{
}

/// An image holds its corners, and nothing beyond its sides.
pub proof fn an_image_ends_at_its_sides(image: Canvas, x: int, y: int)
    ensures
        canvas_width(image) > 0 && canvas_height(image) > 0 ==> image.inside(0, 0)
            && image.inside(canvas_width(image) - 1, canvas_height(image) - 1),
        !image.inside(-1, y),
        !image.inside(x, -1),
        !image.inside(canvas_width(image) as int, y),
        !image.inside(x, canvas_height(image) as int),
{
}

} // verus!
