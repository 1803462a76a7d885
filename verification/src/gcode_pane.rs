//! The G-code tab and the preview tab.
use vstd::prelude::*;

use crate::app::{App, Axis, ConversionStatus, GCodeFocus, OffsetEdit, Progress, Stream};
use crate::binary64::Real;
use crate::connect_pane;
use crate::layers::{Layer, LayerMode, TuiLayerSettings};
use crate::layers;
use crate::message::{Glyph, Message};
use crate::message;
use crate::text;
use crate::view::{Row, Rows, Run, Tone, Window};
use crate::view;

verus! {

// ── Controls ──────────────────────────────────────────────────────────────────

/// How far a conversion has come.
pub open spec fn progress_run(p: Progress) -> Run {
    match p {
        Progress::Idle => view::run(Tone::Info, "idle"@),
        Progress::Running => view::run(Tone::WarnBlink, "converting…"@),
        Progress::Okay => view::run(Tone::GoodBold, "OK ✓"@),
        Progress::Failed(m) => view::told(
            Tone::Bad,
            message::plain("FAILED: "@) + message::plain(m),
        ),
    }
}

fn with_progress(row: Row, status: &ConversionStatus) -> (r: Row)
    ensures
        r@ == row@.push(progress_run(status@)),
{
    match status {
        ConversionStatus::Idle => row.and(Tone::Info, "idle"),
        ConversionStatus::Running => row.and(Tone::WarnBlink, "converting…"),
        ConversionStatus::Okay => row.and(Tone::GoodBold, "OK ✓"),
        ConversionStatus::Failed(m) => row.and_message(
            Tone::Bad,
            Message::text("FAILED: ").then_text(m.as_str()),
        ),
    }
}

/// The row with the settings that matter for the file.
pub open spec fn summary_row(app: App) -> Seq<Run> {
    let s = app.config.machine_settings;
    if app.work.is_image_source {
        seq![
            view::told(
                Tone::Info,
                message::plain("  Feed:"@) + message::exact(s.feedrate, 0) + message::plain(
                    "mm/m  Beam:"@,
                ) + message::exact(s.beam_width, 3) + message::plain("mm/px  Power:"@)
                    + message::exact(s.laser_power, 0) + message::plain("S  Invert:"@),
            ),
            if app.work.invert_image {
                view::run(Tone::WarnBold, "ON  (white pixels fire laser)"@)
            } else {
                view::run(Tone::Info, "off (black pixels fire laser)"@)
            },
        ]
    } else {
        seq![
            view::told(
                Tone::Info,
                message::plain("  Feed:"@) + message::exact(s.feedrate, 0) + message::plain(
                    "mm/m  Tol:"@,
                ) + message::exact(s.tolerance, 3) + message::plain("mm  DPI:"@)
                    + message::exact(s.dpi, 0) + message::plain("  Power:"@) + message::exact(
                    s.laser_power,
                    0,
                ),
            ),
        ]
    }
}

fn render_summary(app: &App) -> (r: Row)
    ensures
        r@ == summary_row(*app),
{
    let s = &app.config.machine_settings;
    let row = if app.work.is_image_source {
        let start = Row::new().and_message(
            Tone::Info,
            Message::text("  Feed:").then_real(s.feedrate, 0).then_text("mm/m  Beam:").then_real(
                s.beam_width,
                3,
            ).then_text("mm/px  Power:").then_real(s.laser_power, 0).then_text("S  Invert:"),
        );
        if app.work.invert_image {
            start.and(Tone::WarnBold, "ON  (white pixels fire laser)")
        } else {
            start.and(Tone::Info, "off (black pixels fire laser)")
        }
    } else {
        Row::new().and_message(
            Tone::Info,
            Message::text("  Feed:").then_real(s.feedrate, 0).then_text("mm/m  Tol:").then_real(
                s.tolerance,
                3,
            ).then_text("mm  DPI:").then_real(s.dpi, 0).then_text("  Power:").then_real(
                s.laser_power,
                0,
            ),
        )
    };
    assert(row@ =~~= summary_row(*app));
    row
}

/// What an image measures in mm at the width of the beam: its sides, and where
/// its far edges come to lie.
#[derive(Debug, Clone, Copy, PartialEq, Eq)]
pub struct ImageSize {
    pub width: Real,
    pub height: Real,
    pub right: Real,
    pub top: Real,
}

/// Whether an image ends within the work area.
pub open spec fn fits(size: ImageSize, max_x: Real, max_y: Real) -> bool {
    size.right.upto(max_x) && size.top.upto(max_y)
}

/// The row with the size of an image: in pixels, in mm, and whether it fits.
pub open spec fn image_row(
    pixels: Option<(u32, u32)>,
    size: ImageSize,
    max_x: Real,
    max_y: Real,
) -> Seq<Run> {
    match pixels {
        Some((w, h)) => seq![
            view::told(
                if fits(size, max_x, max_y) {
                    Tone::Good
                } else {
                    Tone::Bad
                },
                message::plain("  Image:  "@) + message::count(w as nat) + message::plain("×"@)
                    + message::count(h as nat) + message::plain("px → "@) + message::exact(
                    size.width,
                    1,
                ) + message::plain("×"@) + message::exact(size.height, 1) + message::plain(
                    "mm  "@,
                ) + message::plain(
                    if fits(size, max_x, max_y) {
                        "✓"@
                    } else {
                        "⚠"@
                    },
                ) + message::plain(" fits in "@) + message::exact(max_x, 0) + message::plain("×"@)
                    + message::exact(max_y, 0) + message::plain("mm"@),
            ),
        ],
        None => view::single(Tone::Warn, "  Image:  (unknown dimensions – reload file)"@),
    }
}

fn render_image_size(
    pixels: Option<(u32, u32)>,
    size: ImageSize,
    max_x: Real,
    max_y: Real,
) -> (r: Row)
    ensures
        r@ == image_row(pixels, size, max_x, max_y),
{
    match pixels {
        Some((w, h)) => {
            let good = size.right.at_most(max_x) && size.top.at_most(max_y);
            let (tone, icon) = if good {
                (Tone::Good, "✓")
            } else {
                (Tone::Bad, "⚠")
            };
            Row::new().and_message(
                tone,
                Message::text("  Image:  ").then_count(w as u64).then_text("×").then_count(
                    h as u64,
                ).then_text("px → ").then_real(size.width, 1).then_text("×").then_real(
                    size.height,
                    1,
                ).then_text("mm  ").then_text(icon).then_text(" fits in ").then_real(
                    max_x,
                    0,
                ).then_text("×").then_real(max_y, 0).then_text("mm"),
            )
        },
        None => Row::of(Tone::Warn, "  Image:  (unknown dimensions – reload file)"),
    }
}

/// The row with the shift of the job, or with its edit.
pub open spec fn offset_row(x: Real, y: Real, edit: Option<OffsetEdit>) -> Seq<Run> {
    match edit {
        Some(e) => seq![
            view::told(
                Tone::Info,
                message::plain("  Offset "@) + message::plain(e.axis.letter()) + message::plain(
                    ": [ "@,
                ),
            ),
            view::told(Tone::AccentBold, message::plain(e.text@) + message::plain("_"@)),
            view::told(
                if e.complaint is Some {
                    Tone::Bad
                } else {
                    Tone::Info
                },
                message::plain(" ]  Enter=confirm  Esc=cancel"@) + (match e.complaint {
                    Some(c) => message::plain("  ← "@) + message::plain(c@),
                    None => seq![],
                }),
            ),
        ],
        None => seq![
            view::told(
                Tone::Info,
                message::plain("  Offset:  X="@) + message::exact(x, 1) + message::plain("mm  Y="@)
                    + message::exact(y, 1) + message::plain("mm   x: edit X   y: edit Y"@),
            ),
        ],
    }
}

fn render_offset(x: Real, y: Real, edit: &Option<OffsetEdit>) -> (r: Row)
    ensures
        r@ == offset_row(x, y, *edit),
{
    match edit {
        Some(e) => {
            let letter = match e.axis {
                Axis::X => "X",
                Axis::Y => "Y",
            };
            let keys = Message::text(" ]  Enter=confirm  Esc=cancel");
            let ghost k = keys@;
            let (tone, end) = match &e.complaint {
                Some(c) => {
                    let m = keys.then_text("  ← ").then_text(c.as_str());
                    assert(m@ =~= k + (message::plain("  ← "@) + message::plain(c@)));
                    (Tone::Bad, m)
                },
                None => {
                    assert(k + Seq::<Glyph>::empty() =~= k);
                    (Tone::Info, keys)
                },
            };
            Row::new().and_message(
                Tone::Info,
                Message::text("  Offset ").then_text(letter).then_text(": [ "),
            ).and_message(
                Tone::AccentBold,
                Message::text(e.text.as_str()).then_text("_"),
            ).and_message(tone, end)
        },
        None => Row::new().and_message(
            Tone::Info,
            Message::text("  Offset:  X=").then_real(x, 1).then_text("mm  Y=").then_real(
                y,
                1,
            ).then_text("mm   x: edit X   y: edit Y"),
        ),
    }
}

/// The percentage of a job that is done.
pub open spec fn percent(sent: nat, total: nat) -> nat {
    if total > 0 {
        (sent * 100) / total
    } else {
        0
    }
}

/// The bar of a job that is being streamed.
pub open spec fn progress_bar(percent: nat) -> Seq<char> {
    let full = (percent * 20) / 100;
    text::repeat('█', full) + text::repeat('░', connect_pane::less(20, full as int) as nat)
}

/// While part of a job is done, its bar is twenty columns long.
pub proof fn progress_bar_keeps_its_width(sent: nat, total: nat)
    requires
        sent <= total,
    ensures
        percent(sent, total) <= 100,
        progress_bar(percent(sent, total)).len() == 20,
{
    if total > 0 {
        assert(sent * 100 <= 100 * total) by (nonlinear_arith)
            requires
                sent <= total,
        ;
        vstd::arithmetic::div_mod::lemma_div_is_ordered(
            (sent * 100) as int,
            100 * total as int,
            total as int,
        );
        vstd::arithmetic::div_mod::lemma_div_multiples_vanish(100, total as int);
    }
}

/// Whether the progress of a stream can be told in machine numbers.
pub open spec fn countable(s: Stream) -> bool {
    &&& s.stream_sent * 100 <= usize::MAX
    &&& percent(s.stream_sent as nat, s.stream_total as nat) * 20 <= usize::MAX
}

/// A stream that has not sent more than its job holds can be told as far as a
/// hundred times the lines sent fit.
pub proof fn streams_are_countable(s: Stream)
    requires
        s.stream_sent <= s.stream_total,
        s.stream_sent * 100 <= usize::MAX,
    ensures
        countable(s),
{
    progress_bar_keeps_its_width(s.stream_sent as nat, s.stream_total as nat);
}

/// The row with the keys, or with the progress of a stream.
pub open spec fn hint_row(app: App) -> Seq<Run> {
    let sent = app.stream.stream_sent as nat;
    let total = app.stream.stream_total as nat;
    if app.stream.is_streaming {
        seq![
            view::run(Tone::WarnBold, "  Streaming: "@),
            view::run(Tone::Good, progress_bar(percent(sent, total))),
            view::told(
                Tone::Warn,
                message::plain(" "@) + message::count(sent) + message::plain("/"@)
                    + message::count(total) + message::plain(" ("@) + message::count(
                    percent(sent, total),
                ) + message::plain("%)  a:abort"@),
            ),
        ]
    } else if app.work.is_image_source {
        view::single(
            Tone::Info,
            "  o:open SVG/PNG  i:invert  c:conv  s:save  g:send  f:frame  x/y:offset  ↑↓/PgUp/Dn:scroll"@,
        )
    } else {
        view::single(
            Tone::Info,
            "  o:open SVG/PNG  c:conv  s:save  g:send  f:frame  l:layers  x/y:offset  ↑↓/PgUp/Dn:scroll"@,
        )
    }
}

fn render_hint(app: &App) -> (r: Row)
    requires
        app.stream.is_streaming ==> countable(app.stream),
    ensures
        r@ == hint_row(*app),
{
    let sent = app.stream.stream_sent;
    let total = app.stream.stream_total;
    if app.stream.is_streaming {
        let done: usize = if total > 0 {
            (sent * 100) / total
        } else {
            0
        };
        let full: usize = (done * 20) / 100;
        let bar = text::joined(
            text::repeated('█', full).as_str(),
            text::repeated('░', 20usize.saturating_sub(full)).as_str(),
        );
        Row::new().and(Tone::WarnBold, "  Streaming: ").and(Tone::Good, bar.as_str()).and_message(
            Tone::Warn,
            Message::text(" ").then_count(sent as u64).then_text("/").then_count(
                total as u64,
            ).then_text(" (").then_count(done as u64).then_text("%)  a:abort"),
        )
    } else if app.work.is_image_source {
        Row::of(
            Tone::Info,
            "  o:open SVG/PNG  i:invert  c:conv  s:save  g:send  f:frame  x/y:offset  ↑↓/PgUp/Dn:scroll",
        )
    } else {
        Row::of(
            Tone::Info,
            "  o:open SVG/PNG  c:conv  s:save  g:send  f:frame  l:layers  x/y:offset  ↑↓/PgUp/Dn:scroll",
        )
    }
}

/// The rows above the G-code text, given the name of the file and what an image
/// measures.
pub open spec fn controls_rows(
    app: App,
    file_name: Option<Seq<char>>,
    size: ImageSize,
) -> Seq<Seq<Run>> {
    let s = app.config.machine_settings;
    let start = seq![
        seq![
            view::run(Tone::Info, "  File:   "@),
            view::run(
                Tone::TitleBold,
                match file_name {
                    Some(n) => n,
                    None => "<no file loaded>"@,
                },
            ),
        ],
        seq![
            view::run(Tone::Info, "  Status: "@),
            progress_run(app.work.conversion_status@),
            view::told(
                Tone::Info,
                message::plain("  ("@) + message::count(app.line_count()) + message::plain(
                    " lines)"@,
                ),
            ),
        ],
        summary_row(app),
    ];
    (if app.work.is_image_source {
        start.push(image_row(app.work.image_dimensions, size, s.max_x_mm, s.max_y_mm))
    } else {
        start
    }).push(offset_row(s.origin_x, s.origin_y, app.offset)).push(hint_row(app))
}

/// What is shown above the G-code text, given the name of the file and what an
/// image measures.
pub fn render_gcode_controls(app: &App, file_name: Option<&str>, size: ImageSize) -> (r: Rows)
    requires
        app.stream.is_streaming ==> countable(app.stream),
    ensures
        r@ == controls_rows(
            *app,
            match file_name {
                Some(n) => Some(n@),
                None => None,
            },
            size,
        ),
{
    let s = &app.config.machine_settings;
    let name = match file_name {
        Some(n) => n,
        None => "<no file loaded>",
    };
    let file = Row::new().and(Tone::Info, "  File:   ").and(Tone::TitleBold, name);
    let status = with_progress(
        Row::new().and(Tone::Info, "  Status: "),
        &app.work.conversion_status,
    ).and_message(
        Tone::Info,
        Message::text("  (").then_count(app.gcode_line_count() as u64).then_text(" lines)"),
    );
    let mut rows = Rows::new().and(file).and(status).and(render_summary(app));
    if app.work.is_image_source {
        rows = rows.and(
            render_image_size(app.work.image_dimensions, size, s.max_x_mm, s.max_y_mm),
        );
    }
    let r = rows.and(render_offset(s.origin_x, s.origin_y, &app.offset)).and(render_hint(app));
    assert(r@ =~~= controls_rows(
        *app,
        match file_name {
            Some(n) => Some(n@),
            None => None,
        },
        size,
    ));
    r
}

/// The height of the controls with their border.
pub fn controls_height(app: &App) -> (r: u16)
    ensures
        r == (if app.work.is_image_source {
            8int
        } else {
            7
        }),
{
    if app.work.is_image_source {
        8
    } else {
        7
    }
}

/// The controls have room: their rows and the border fill the height.
pub proof fn controls_have_room(app: App, file_name: Option<Seq<char>>, size: ImageSize)
    ensures
        controls_rows(app, file_name, size).len() + 2 == (if app.work.is_image_source {
            8int
        } else {
            7
        }),
{
}

// ── Text ──────────────────────────────────────────────────────────────────────

/// The tone of a line of G-code.
pub open spec fn code_tone(line: Seq<char>) -> Tone {
    let start = text::trim_start(line);
    let upper = text::upper(start);
    if text::starts(start, ";"@) {
        Tone::Info
    } else if text::starts(upper, "G0 "@) || upper == "G0"@ {
        Tone::Info
    } else if text::starts(upper, "G1 "@) || upper == "G1"@ {
        Tone::Good
    } else if text::starts(upper, "G2"@) || text::starts(upper, "G3"@) {
        Tone::Accent
    } else if text::starts(upper, "M"@) {
        Tone::Warn
    } else {
        Tone::Title
    }
}

/// The tone of a line of G-code: comments and rapid moves stand back, cuts, arcs
/// and machine commands have tones of their own.
pub fn gcode_line_colour(line: &str) -> (r: Tone)
    ensures
        r == code_tone(line@),
{
    let start = text::trimmed_start(line);
    if text::starts_with(start.as_str(), ";") {
        return Tone::Info;
    }
    let upper = text::to_upper(start.as_str());
    if text::starts_with(upper.as_str(), "G0 ") || text::same(upper.as_str(), "G0") {
        Tone::Info
    } else if text::starts_with(upper.as_str(), "G1 ") || text::same(upper.as_str(), "G1") {
        Tone::Good
    } else if text::starts_with(upper.as_str(), "G2") || text::starts_with(upper.as_str(), "G3") {
        Tone::Accent
    } else if text::starts_with(upper.as_str(), "M") {
        Tone::Warn
    } else {
        Tone::Title
    }
}

/// The row of a line of G-code, with its number.
pub open spec fn code_row(i: int, line: Seq<char>) -> Seq<Run> {
    seq![
        view::run(Tone::Info, text::right_aligned(text::decimal((i + 1) as nat), 5) + " "@),
        view::run(code_tone(line), line),
    ]
}

/// The part of `total` lines that is shown in `height` rows.
pub open spec fn text_part(scroll: usize, total: nat, height: nat) -> Window {
    let start = view::lesser(scroll as int, connect_pane::less(total as int, 1));
    let most = connect_pane::less(total as int, height as int);
    Window {
        start: start as usize,
        end: view::lesser(start + height, total as int) as usize,
        bar: if total > height {
            Some(((most + 1) as usize, view::lesser(scroll as int, most) as usize))
        } else {
            None
        },
    }
}

/// The shown part of the text has room and is not empty while there is room and
/// text; the scroll bar stands at one of its positions.
pub proof fn text_part_has_room(scroll: usize, total: nat, height: nat)
    requires
        total < usize::MAX,
    ensures
        ({
            let w = text_part(scroll, total, height);
            &&& w.start <= w.end <= total
            &&& w.end - w.start <= height
            &&& total > 0 && height > 0 ==> w.start < w.end
            &&& scroll < total ==> w.start == scroll
            &&& w.bar matches Some((n, at)) ==> at < n
        }),
{
}

fn text_window(scroll: usize, total: usize, height: usize) -> (r: Window)
    requires
        total < usize::MAX,
    ensures
        r == text_part(scroll, total as nat, height as nat),
{
    let last: usize = total.saturating_sub(1);
    let start: usize = if scroll < last {
        scroll
    } else {
        last
    };
    let to: usize = start.saturating_add(height);
    let end: usize = if to < total {
        to
    } else {
        total
    };
    let bar = if total > height {
        let most: usize = total - height;
        let at: usize = if scroll < most {
            scroll
        } else {
            most
        };
        Some((most + 1, at))
    } else {
        None
    };
    Window { start, end, bar }
}

/// What is shown in place of G-code.
pub open spec fn no_code() -> Seq<Seq<Run>> {
    seq![
        seq![],
        view::single(Tone::Info, "  No GCode generated yet."@),
        view::single(Tone::Info, "  Press 'o' to load an SVG, then 'c' to convert."@),
    ]
}

/// The rows of G-code that are shown in `height` rows.
pub open spec fn code_rows(app: App, height: nat) -> Seq<Seq<Run>> {
    match app.work.gcode_text {
        None => no_code(),
        Some(gcode) => {
            let lines = text::lines(gcode@);
            let w = text_part(app.work.gcode_scroll, lines.len(), height);
            Seq::new(
                (w.end - w.start) as nat,
                |i: int| code_row(w.start + i, lines[w.start + i]),
            )
        },
    }
}

/// The part of the G-code text that is shown in `height` rows, with its scroll
/// bar.
pub fn render_gcode_text(app: &App, height: usize) -> (r: (Rows, Option<(usize, usize)>))
    requires
        app.line_count() < usize::MAX,
    ensures
        r.0@ == code_rows(*app, height as nat),
        r.1 == (match app.work.gcode_text {
            Some(_) => text_part(app.work.gcode_scroll, app.line_count(), height as nat).bar,
            None => None,
        }),
{
    let gcode = match &app.work.gcode_text {
        None => {
            return (Rows::new()
        .and_gap()
        .and_line(Tone::Info, "  No GCode generated yet.")
        .and_line(Tone::Info, "  Press 'o' to load an SVG, then 'c' to convert."), None);
        },
        Some(g) => g,
    };
    let lines = text::lines_of(gcode.as_str());
    assert(text::texts(lines@).len() == lines@.len());
    let w = text_window(app.work.gcode_scroll, lines.len(), height);
    let ghost all = code_rows(*app, height as nat);
    let mut rows = Rows::new();
    let mut i: usize = w.start;
    assert(rows@ =~= all.take(0));
    while i < w.end
        invariant
            app.work.gcode_text == Some(*gcode),
            text::texts(lines@) == text::lines(gcode@),
            text::texts(lines@).len() == lines@.len(),
            lines@.len() < usize::MAX,
            w == text_part(app.work.gcode_scroll, lines@.len(), height as nat),
            all == code_rows(*app, height as nat),
            w.start <= i <= w.end <= lines@.len(),
            rows@ == all.take(i - w.start),
        decreases w.end - i,
    {
        let line = lines[i].as_str();
        let number = text::joined(
            text::align_right(text::decimal_of((i + 1) as u64).as_str(), 5).as_str(),
            " ",
        );
        let row = Row::new().and(Tone::Info, number.as_str()).and(gcode_line_colour(line), line);
        assert(text::texts(lines@)[i as int] == line@);
        assert(row@ =~~= all[i - w.start]);
        rows = rows.and(row);
        assert(rows@ == all.take(i + 1 - w.start));
        i = i + 1;
    }
    assert(all.take(all.len() as int) == all);
    (rows, w.bar)
}

// ── Layers ────────────────────────────────────────────────────────────────────

/// The rows that a layer takes: its name, three overrides and its mode.
pub const LAYER_ROWS: u16 = 5;

/// Which layers are shown where there is room for `visible` of them: the
/// selected one is among them.
pub open spec fn layer_part(selected: usize, total: nat, visible: nat) -> Window {
    let start = if total <= visible {
        0
    } else {
        connect_pane::less(selected as int, connect_pane::less(visible as int, 1))
    };
    let most = connect_pane::less(total as int, visible as int);
    Window {
        start: start as usize,
        end: view::lesser(start + visible, total as int) as usize,
        bar: if total > visible && visible > 0 {
            Some(((most + 1) as usize, view::lesser(start, most) as usize))
        } else {
            None
        },
    }
}

/// The selected layer is shown where there is room for any, among as many layers
/// as there is room for.
pub proof fn selected_layer_is_shown(selected: usize, total: nat, visible: nat)
    requires
        selected < total < usize::MAX,
        visible > 0,
    ensures
        ({
            let w = layer_part(selected, total, visible);
            w.start <= selected < w.end <= total && w.end - w.start == view::lesser(
                visible as int,
                total as int,
            )
        }),
{
}

/// Which layers are shown in `height` rows.
pub fn layer_window(app: &App, height: u16) -> (r: Window)
    requires
        app.wf(),
        app.panel.layers@.len() < usize::MAX,
    ensures
        r == layer_part(
            app.panel.layer_selected,
            app.panel.layers@.len(),
            (height / LAYER_ROWS) as nat,
        ),
{
    let visible: usize = (height / LAYER_ROWS) as usize;
    let total = app.panel.layers.len();
    let start: usize = if total <= visible {
        0
    } else {
        app.panel.layer_selected.saturating_sub(visible.saturating_sub(1))
    };
    let to: usize = start.saturating_add(visible);
    let end: usize = if to < total {
        to
    } else {
        total
    };
    let bar = if total > visible && visible > 0 {
        let most: usize = total - visible;
        let at: usize = if start < most {
            start
        } else {
            most
        };
        Some((most + 1, at))
    } else {
        None
    };
    Window { start, end, bar }
}

/// The values of a layer: its own, or those of the job in brackets; last its
/// mode.
pub open spec fn layer_value(l: Layer, field: int, feedrate: Real, power: Real) -> Seq<Glyph> {
    if field == 0 {
        match layers::either(l.feedrate, l.svg_feedrate) {
            Some(f) => message::exact(f, 0),
            None => message::plain("("@) + message::exact(feedrate, 0) + message::plain(")"@),
        }
    } else if field == 1 {
        match layers::either(l.power, l.svg_power) {
            Some(p) => message::exact(p, 0),
            None => message::plain("("@) + message::exact(power, 0) + message::plain(")"@),
        }
    } else if field == 2 {
        match layers::either(l.passes, l.svg_passes) {
            Some(n) => message::count(n as nat),
            None => message::plain("(1)"@),
        }
    } else {
        message::plain(l.mode.name())
    }
}

fn real_value(own: Option<Real>, baked: Option<Real>, fallback: Real) -> (r: Message)
    ensures
        r@ == (match layers::either(own, baked) {
            Some(f) => message::exact(f, 0),
            None => message::plain("("@) + message::exact(fallback, 0) + message::plain(")"@),
        }),
{
    let v = match own {
        Some(f) => Some(f),
        None => baked,
    };
    match v {
        Some(f) => {
            let m = Message::new().then_real(f, 0);
            assert(m@ =~= message::exact(f, 0));
            m
        },
        None => Message::text("(").then_real(fallback, 0).then_text(")"),
    }
}

fn value_message(l: &TuiLayerSettings, field: usize, feedrate: Real, power: Real) -> (r: Message)
    requires
        field <= 3,
    ensures
        r@ == layer_value(l@, field as int, feedrate, power),
{
    if field == 0 {
        real_value(l.feedrate, l.svg_feedrate, feedrate)
    } else if field == 1 {
        real_value(l.power, l.svg_power, power)
    } else if field == 3 {
        Message::text(l.mode_label())
    } else {
        let v = match l.passes {
            Some(n) => Some(n),
            None => l.svg_passes,
        };
        match v {
            Some(n) => {
                let m = Message::new().then_count(n as u64);
                assert(m@ =~= message::count(n as nat));
                m
            },
            None => Message::text("(1)"),
        }
    }
}

/// The names of the overrides and of the mode.
pub open spec fn field_label(field: int) -> Seq<char> {
    if field == 0 {
        "  Spd:"@
    } else if field == 1 {
        "  Pwr:"@
    } else if field == 2 {
        "  ×  :"@
    } else {
        "  Mod:"@
    }
}

fn field_label_of(field: usize) -> (r: &'static str)
    ensures
        r@ == field_label(field as int),
{
    if field == 0 {
        "  Spd:"
    } else if field == 1 {
        "  Pwr:"
    } else if field == 2 {
        "  ×  :"
    } else {
        "  Mod:"
    }
}

/// Whether an override was set, or the mode is not the default.
pub open spec fn is_set(l: Layer, field: int) -> bool {
    if field == 0 {
        l.feedrate is Some
    } else if field == 1 {
        l.power is Some
    } else if field == 2 {
        l.passes is Some
    } else {
        !(l.mode is Default)
    }
}

/// What is edited, with a cursor that comes and goes, and the complaint.
pub open spec fn edited_value(
    buf: Seq<char>,
    complaint: Option<Seq<Glyph>>,
    blink: bool,
) -> Seq<Glyph> {
    message::plain(" "@) + message::plain(buf) + message::plain(
        if blink {
            "█"@
        } else {
            " "@
        },
    ) + (match complaint {
        Some(e) => message::plain(" ✗"@) + e,
        None => seq![],
    })
}

fn edited_message(buf: &str, complaint: &Option<Message>, blink: bool) -> (r: Message)
    ensures
        r@ == edited_value(buf@, layers::shown(*complaint), blink),
{
    let start = Message::text(" ").then_text(buf).then_text(
        if blink {
            "█"
        } else {
            " "
        },
    );
    let ghost s = start@;
    match complaint {
        Some(e) => {
            let m = start.followed_by(Message::text(" ✗").followed_by(e.clone()));
            m
        },
        None => {
            assert(s + Seq::<Glyph>::empty() == s);
            start
        },
    }
}

/// The row of an override of a layer, or of its mode.
pub open spec fn field_row(app: App, l: Layer, field: int, editing: bool, blink: bool) -> Seq<Run> {
    let s = app.config.machine_settings;
    if editing {
        seq![
            view::run(Tone::Warn, field_label(field)),
            view::told(
                Tone::Warn,
                edited_value(
                    app.panel.layer_edit_buf@,
                    layers::shown(app.panel.layer_edit_error),
                    blink,
                ),
            ),
        ]
    } else {
        seq![
            view::run(Tone::Info, field_label(field)),
            view::told(
                if is_set(l, field) {
                    Tone::Good
                } else {
                    Tone::Info
                },
                message::plain(" "@) + layer_value(l, field, s.feedrate, s.laser_power),
            ),
        ]
    }
}

fn render_field(
    app: &App,
    l: &TuiLayerSettings,
    field: usize,
    editing: bool,
    blink: bool,
) -> (r: Row)
    requires
        field <= 3,
    ensures
        r@ == field_row(*app, l@, field as int, editing, blink),
{
    let s = &app.config.machine_settings;
    if editing {
        return Row::new().and(Tone::Warn, field_label_of(field)).and_message(
            Tone::Warn,
            edited_message(
                app.panel.layer_edit_buf.as_str(),
                &app.panel.layer_edit_error,
                blink,
            ),
        );
    }
    let set = if field == 0 {
        l.feedrate.is_some()
    } else if field == 1 {
        l.power.is_some()
    } else if field == 2 {
        l.passes.is_some()
    } else {
        l.mode != LayerMode::Default
    };
    let tone = if set {
        Tone::Good
    } else {
        Tone::Info
    };
    Row::new().and(Tone::Info, field_label_of(field)).and_message(
        tone,
        Message::text(" ").followed_by(value_message(l, field, s.feedrate, s.laser_power)),
    )
}

/// The rows of a layer in a panel of a width.
pub open spec fn layer_rows(app: App, i: int, width: u16, blink: bool) -> Seq<Seq<Run>> {
    let l = app.panel.layers@[i]@;
    let selected = i == app.panel.layer_selected && app.screen.gcode_focus is Layers;
    let name = text::start_of(l.label, connect_pane::less(width as int, 4) as nat);
    let editing = |field: usize| selected && app.panel.layer_edit_field == Some(field);
    seq![
        seq![
            view::told(
                if selected {
                    Tone::AccentBold
                } else {
                    Tone::Title
                },
                message::plain(
                    if selected {
                        "▶ "@
                    } else {
                        "  "@
                    },
                ) + message::plain(name),
            ),
        ],
        field_row(app, l, 0, editing(0), blink),
        field_row(app, l, 1, editing(1), blink),
        field_row(app, l, 2, editing(2), blink),
        field_row(app, l, 3, editing(3), blink),
    ]
}

/// The rows of a layer in a panel of a width.
pub fn render_layer(app: &App, i: usize, width: u16, blink: bool) -> (r: Rows)
    requires
        i < app.panel.layers@.len(),
    ensures
        r@ == layer_rows(*app, i as int, width, blink),
{
    let l = &app.panel.layers[i];
    let selected = i == app.panel.layer_selected && app.screen.gcode_focus == GCodeFocus::Layers;
    let edited: usize = match app.panel.layer_edit_field {
        Some(f) => if selected {
            f
        } else {
            4
        },
        None => 4,
    };
    let name = text::truncated(l.label.as_str(), width.saturating_sub(4) as usize);
    let title = if selected {
        Row::new().and_message(Tone::AccentBold, Message::text("▶ ").then_text(name.as_str()))
    } else {
        Row::new().and_message(Tone::Title, Message::text("  ").then_text(name.as_str()))
    };
    let r = Rows::new()
        .and(title)
        .and(render_field(app, l, 0, edited == 0, blink))
        .and(render_field(app, l, 1, edited == 1, blink))
        .and(render_field(app, l, 2, edited == 2, blink))
        .and(render_field(app, l, 3, edited == 3, blink));
    assert(r@ =~~= layer_rows(*app, i as int, width, blink));
    r
}

/// The rows of the layers from one to before another, one layer under the other.
pub open spec fn stacked_layers(app: App, from: int, to: int, width: u16, blink: bool) -> Seq<
    Seq<Run>,
>
    decreases to - from,
{
    if to <= from {
        seq![]
    } else {
        stacked_layers(app, from, to - 1, width, blink) + layer_rows(app, to - 1, width, blink)
    }
}

/// The layers that are shown in `height` rows, one under the other, with the
/// scroll bar beside them; or that there are none.
pub fn render_layer_panel(app: &App, width: u16, height: u16, blink: bool) -> (r: (Rows, Window))
    requires
        app.wf(),
        app.panel.layers@.len() < usize::MAX,
    ensures
        r.1 == layer_part(
            app.panel.layer_selected,
            app.panel.layers@.len(),
            (height / LAYER_ROWS) as nat,
        ),
        r.0@ == (if app.panel.layers@.len() == 0 {
            seq![view::single(Tone::Info, "No layers detected."@)]
        } else {
            stacked_layers(*app, r.1.start as int, r.1.end as int, width, blink)
        }),
{
    let w = layer_window(app, height);
    if app.panel.layers.len() == 0 {
        return (Rows::new().and_line(Tone::Info, "No layers detected."), w);
    }
    let mut rows = Rows::new();
    let mut i: usize = w.start;
    while i < w.end
        invariant
            w.end <= app.panel.layers@.len(),
            w.start <= i,
            i <= w.end || i == w.start,
            rows@ == stacked_layers(*app, w.start as int, i as int, width, blink),
        decreases w.end - i,
    {
        rows = rows.joined(render_layer(app, i, width, blink));
        i = i + 1;
    }
    (rows, w)
}

/// The layers that are shown fit into the rows that there are.
pub proof fn layers_have_room(app: App, width: u16, height: u16, blink: bool)
    requires
        app.panel.layers@.len() < usize::MAX,
    ensures
        ({
            let visible = (height / LAYER_ROWS) as nat;
            let w = layer_part(app.panel.layer_selected, app.panel.layers@.len(), visible);
            stacked_layers(app, w.start as int, w.end as int, width, blink).len() <= height
        }),
{
    let visible = (height / LAYER_ROWS) as nat;
    let w = layer_part(app.panel.layer_selected, app.panel.layers@.len(), visible);
    lemma_stacked_layers_len(app, w.start as int, w.end as int, width, blink);
}

proof fn lemma_stacked_layers_len(app: App, from: int, to: int, width: u16, blink: bool)
    ensures
        stacked_layers(app, from, to, width, blink).len() == (if to <= from {
            0
        } else {
            LAYER_ROWS * (to - from)
        }),
    decreases to - from,
{
    if to > from {
        lemma_stacked_layers_len(app, from, to - 1, width, blink);
    }
}

/// Whether a layer is selected in the panel that has the keyboard.
pub fn layer_is_marked(app: &App, i: usize) -> (r: bool)
    ensures
        r == (i == app.panel.layer_selected && app.screen.gcode_focus is Layers),
{
    i == app.panel.layer_selected && app.screen.gcode_focus == GCodeFocus::Layers
}

/// The title of the list of layers.
pub fn layers_title(app: &App) -> (r: Row)
    ensures
        r@ == (if app.screen.gcode_focus is Layers {
            view::single(Tone::AccentBold, " Layers [active] "@)
        } else {
            view::single(Tone::TitleBold, " Layers "@)
        }),
{
    if app.screen.gcode_focus == GCodeFocus::Layers {
        Row::of(Tone::AccentBold, " Layers [active] ")
    } else {
        Row::of(Tone::TitleBold, " Layers ")
    }
}

/// The keys below the list of layers.
pub fn layers_hint(app: &App) -> (r: Row)
    ensures
        r@ == (if !(app.screen.gcode_focus is Layers) {
            view::single(Tone::Info, "l:focus layers"@)
        } else if app.panel.layer_edit_field is Some {
            view::single(Tone::Info, "Enter:confirm  Esc:cancel"@)
        } else {
            view::single(Tone::Info, "f:spd  p:pwr  n:pass  m:mode  r:reset  Esc:back"@)
        }),
{
    if app.screen.gcode_focus != GCodeFocus::Layers {
        Row::of(Tone::Info, "l:focus layers")
    } else if app.panel.layer_edit_field.is_some() {
        Row::of(Tone::Info, "Enter:confirm  Esc:cancel")
    } else {
        Row::of(Tone::Info, "f:spd  p:pwr  n:pass  m:mode  r:reset  Esc:back")
    }
}

// ── Preview ───────────────────────────────────────────────────────────────────

/// The title above the drawing.
pub fn source_title(app: &App) -> (r: Row)
    ensures
        r@ == (if app.work.is_image_source {
            view::single(Tone::TitleBold, " Source Image "@)
        } else {
            view::single(Tone::TitleBold, " Source SVG "@)
        }),
{
    if app.work.is_image_source {
        Row::of(Tone::TitleBold, " Source Image ")
    } else {
        Row::of(Tone::TitleBold, " Source SVG ")
    }
}

/// What is shown in place of the drawing.
pub open spec fn source_hint(app: App) -> Seq<char> {
    if app.work.is_image_source {
        if app.work.svg_path is Some {
            "  Loading image preview…"@
        } else {
            "  Load an image (GCode tab → 'o')"@
        }
    } else if app.work.svg_path is Some {
        "  SVG preview: press 'p' after converting"@
    } else {
        "  Load an SVG or PNG (GCode tab → 'o')"@
    }
}

/// What is shown in place of the drawing.
pub fn render_svg_preview_panel(app: &App) -> (r: Rows)
    ensures
        r@ == seq![seq![], view::single(Tone::Info, source_hint(*app))],
{
    let hint = if app.work.is_image_source {
        if app.work.svg_path.is_some() {
            "  Loading image preview…"
        } else {
            "  Load an image (GCode tab → 'o')"
        }
    } else if app.work.svg_path.is_some() {
        "  SVG preview: press 'p' after converting"
    } else {
        "  Load an SVG or PNG (GCode tab → 'o')"
    };
    Rows::new().and_gap().and_line(Tone::Info, hint)
}

/// The title above the tool path.
pub fn path_title(app: &App) -> (r: Row)
    ensures
        r@ == (if app.preview.show_travel_lines {
            view::single(Tone::TitleBold, " GCode Toolpath [travel: ON] "@)
        } else {
            view::single(Tone::TitleBold, " GCode Toolpath [travel: OFF] "@)
        }),
{
    if app.preview.show_travel_lines {
        Row::of(Tone::TitleBold, " GCode Toolpath [travel: ON] ")
    } else {
        Row::of(Tone::TitleBold, " GCode Toolpath [travel: OFF] ")
    }
}

/// What is shown in place of the tool path.
pub open spec fn path_rows(app: App) -> Seq<Seq<Run>> {
    if app.work.gcode_text is None {
        seq![seq![], view::single(Tone::Info, "  No GCode yet. Convert an SVG first."@)]
    } else {
        seq![
        seq![],
        view::single(Tone::Info, "  Press 'p' to render toolpath preview."@),
        seq![],
        view::single(Tone::Info, "  Press 't' to toggle travel (rapid) lines."@),
    ]
    }
}

/// What is shown in place of the tool path.
pub fn render_gcode_preview_panel(app: &App) -> (r: Rows)
    ensures
        r@ == path_rows(*app),
{
    if app.work.gcode_text.is_none() {
        return Rows::new().and_gap().and_line(Tone::Info, "  No GCode yet. Convert an SVG first.");
    }
    Rows::new()
        .and_gap()
        .and_line(Tone::Info, "  Press 'p' to render toolpath preview.")
        .and_gap()
        .and_line(Tone::Info, "  Press 't' to toggle travel (rapid) lines.")
}

/// The keys below the tool path.
pub fn path_hint(app: &App) -> (r: Row)
    ensures
        r@ == (if app.preview.show_travel_lines {
            view::single(Tone::Info, "  t: hide travel  p: re-render"@)
        } else {
            view::single(Tone::Info, "  t: show travel  p: re-render"@)
        }),
{
    if app.preview.show_travel_lines {
        Row::of(Tone::Info, "  t: hide travel  p: re-render")
    } else {
        Row::of(Tone::Info, "  t: show travel  p: re-render")
    }
}

// ── Laws ──────────────────────────────────────────────────────────────────────

/// The percentage is none at the start and all at the end, and the whole part of
/// what is done of a hundred.
pub proof fn the_percentage_is_of_a_hundred(sent: nat, total: nat)
    ensures
        total > 0 ==> percent(sent, total) * total <= sent * 100 < (percent(sent, total) + 1) * total,
        total > 0 ==> percent(total, total) == 100,
        percent(0, total) == 0,
        total == 0 ==> percent(sent, total) == 0,
{
    if total > 0 {
        let (a, t) = ((sent * 100) as int, total as int);
        vstd::arithmetic::div_mod::lemma_fundamental_div_mod(a, t);
        vstd::arithmetic::div_mod::lemma_mod_bound(a, t);
        let q = a / t;
        assert(t * q == q * t) by (nonlinear_arith);
        assert((q + 1) * t == q * t + t) by (nonlinear_arith);
        vstd::arithmetic::div_mod::lemma_div_multiples_vanish(100, t);
        assert(total * 100 == 100 * t) by (nonlinear_arith)
            requires
                t == total,
        ;
        vstd::arithmetic::div_mod::lemma_div_basics(t);
    }
}

/// The bar of a job has a full column for every five percent, and then empty ones.
pub proof fn the_bar_has_a_column_for_every_five_percent(percent: nat, i: int)
    requires
        percent <= 100,
        0 <= i < 20,
    ensures
        progress_bar(percent).len() == 20,
        progress_bar(percent)[i] == (if (i + 1) * 5 <= percent {
            '█'
        } else {
            '░'
        }),
{
}

/// An image fits if neither of its far edges is beyond its own limit, and its row
/// says so by its tone.
pub proof fn an_image_fits_within_both_limits(
    w: u32,
    h: u32,
    size: ImageSize,
    max_x: Real,
    max_y: Real,
)
    ensures
        max_x.below(size.right) || max_y.below(size.top) ==> !fits(size, max_x, max_y),
        size.right.upto(max_x) && size.top.upto(max_y) ==> fits(size, max_x, max_y),
        image_row(Some((w, h)), size, max_x, max_y)[0].tone is Good <==> fits(size, max_x, max_y),
        image_row(Some((w, h)), size, max_x, max_y)[0].tone is Bad <==> !fits(size, max_x, max_y),
        image_row(None, size, max_x, max_y)[0].tone is Warn,
{
}

/// How a conversion went is told by its tone, and a failure with its reason.
pub proof fn conversions_are_told_by_their_tone(p: Progress)
    ensures
        p is Okay <==> progress_run(p).tone is GoodBold,
        p is Failed <==> progress_run(p).tone is Bad,
        p is Running <==> progress_run(p).tone is WarnBlink,
        p matches Progress::Failed(m) ==> progress_run(p).text == message::plain("FAILED: "@ + m),
{
    if let Progress::Failed(m) = p {
        message::texts_are_shown_in_order("FAILED: "@, m, 0);
    }
}

/// While the shift is edited its row shows the axis, the text so far and the
/// complaint; else it shows both shifts.
pub proof fn the_shift_is_shown(x: Real, y: Real, edit: OffsetEdit)
    ensures
        ({
            let row = offset_row(x, y, Some(edit));
            &&& row.len() == 3
            &&& row[0].text == message::plain("  Offset "@ + edit.axis.letter() + ": [ "@)
            &&& row[1].text == message::plain(edit.text@ + "_"@)
            &&& row[2].tone is Bad <==> edit.complaint is Some
        }),
        offset_row(x, y, None)[0].text.contains(
            Glyph::Number { amount: message::Amount::Exact(x), places: 1, width: 0 },
        ),
        offset_row(x, y, None)[0].text.contains(
            Glyph::Number { amount: message::Amount::Exact(y), places: 1, width: 0 },
        ),
{
    message::texts_are_shown_in_order("  Offset "@, edit.axis.letter(), 0);
    message::texts_are_shown_in_order("  Offset "@ + edit.axis.letter(), ": [ "@, 0);
    message::texts_are_shown_in_order(edit.text@, "_"@, 0);
    let t = offset_row(x, y, None)[0].text;
    let n = "  Offset:  X="@.len() as int;
    let m = "mm  Y="@.len() as int;
    assert(t[n] == (Glyph::Number { amount: message::Amount::Exact(x), places: 1, width: 0 }));
    assert(t[n + 1 + m] == (Glyph::Number {
        amount: message::Amount::Exact(y),
        places: 1,
        width: 0,
    }));
}

/// Whether bright or dark pixels burn is told by the tone of the row of an image.
pub proof fn inversion_is_shown(app: App)
    ensures
        app.work.is_image_source ==> (summary_row(app)[1].tone is WarnBold
            <==> app.work.invert_image),
        app.work.is_image_source <==> summary_row(app).len() == 2,
        app.stream.is_streaming <==> hint_row(app).len() == 3,
{
}

/// A line of G-code is shown whole behind its number, which counts from one.
pub proof fn lines_are_numbered_from_one(i: int, line: Seq<char>)
    requires
        0 <= i,
    ensures
        code_row(i, line).len() == 2,
        code_row(i, line)[0].text == message::plain(
            text::right_aligned(text::decimal((i + 1) as nat), 5) + " "@,
        ),
        code_row(i, line)[1].text == message::plain(line),
        code_row(i, line)[1].tone == code_tone(line),
{
}

/// Lines of G-code are told apart by their first word: a comment and a rapid move
/// stand back, a cut is good, an arc stands out, and what sets the machine needs
/// care.
pub proof fn moves_are_told_by_their_tone(rest: Seq<char>)
    ensures
        code_tone(seq![';'] + rest) is Info,
        code_tone(seq!['G', '0', ' '] + rest) is Info,
        code_tone(seq!['G', '1', ' '] + rest) is Good,
        code_tone(seq!['g', '1', ' '] + rest) is Good,
        code_tone(seq!['G', '2'] + rest) is Accent,
        code_tone(seq!['G', '3'] + rest) is Accent,
        code_tone(seq!['M'] + rest) is Warn,
        code_tone(seq!['m'] + rest) is Warn,
        code_tone(seq!['X'] + rest) is Title,
{
    reveal_strlit(";");
    reveal_strlit("G0 ");
    reveal_strlit("G0");
    reveal_strlit("G1 ");
    reveal_strlit("G1");
    reveal_strlit("G2");
    reveal_strlit("G3");
    reveal_strlit("M");
    let c = seq![';'] + rest;
    assert(c.take(1) =~= ";"@);
    lemma_first_word(seq!['G', '0', ' '], rest);
    lemma_first_word(seq!['G', '1', ' '], rest);
    lemma_first_word(seq!['g', '1', ' '], rest);
    lemma_first_word(seq!['G', '2'], rest);
    lemma_first_word(seq!['G', '3'], rest);
    lemma_first_word(seq!['M'], rest);
    lemma_first_word(seq!['m'], rest);
    lemma_first_word(seq!['X'], rest);
    assert(text::upper(seq!['G', '0', ' '] + rest).take(3) =~= "G0 "@);
    assert(text::upper(seq!['G', '1', ' '] + rest).take(3) =~= "G1 "@);
    assert(text::upper(seq!['g', '1', ' '] + rest).take(3) =~= "G1 "@);
    assert(text::upper(seq!['G', '2'] + rest).take(2) =~= "G2"@);
    assert(text::upper(seq!['G', '3'] + rest).take(2) =~= "G3"@);
    assert(text::upper(seq!['M'] + rest).take(1) =~= "M"@);
    assert(text::upper(seq!['m'] + rest).take(1) =~= "M"@);
}

/// What a line that begins with a word does not begin with.
proof fn lemma_first_word(word: Seq<char>, rest: Seq<char>)
    requires
        word.len() > 0,
        !text::is_space(word[0]),
    ensures
        ({
            let s = word + rest;
            let u = text::upper(s);
            let first = text::upper_char(word[0]);
            &&& text::trim_start(s) == s
            &&& word[0] != ';' ==> !text::starts(s, ";"@)
            &&& first != 'G' ==> !text::starts(u, "G0 "@) && u != "G0"@ && !text::starts(u, "G1 "@)
                && u != "G1"@ && !text::starts(u, "G2"@) && !text::starts(u, "G3"@)
            &&& first != 'M' ==> !text::starts(u, "M"@)
            &&& word.len() > 1 && word[1] != '0' ==> !text::starts(u, "G0 "@) && u != "G0"@
            &&& word.len() > 1 && word[1] != '1' ==> !text::starts(u, "G1 "@) && u != "G1"@
        }),
{
    reveal_strlit(";");
    reveal_strlit("G0 ");
    reveal_strlit("G0");
    reveal_strlit("G1 ");
    reveal_strlit("G1");
    reveal_strlit("G2");
    reveal_strlit("G3");
    reveal_strlit("M");
    let s = word + rest;
    let u = text::upper(s);
    assert(u.len() == s.len());
    assert(u[0] == text::upper_char(word[0]));
    if word[0] != ';' {
        text::what_differs_is_no_prefix(s, ";"@, 0);
    }
    if u[0] != 'G' {
        text::what_differs_is_no_prefix(u, "G0 "@, 0);
        text::what_differs_is_no_prefix(u, "G1 "@, 0);
        text::what_differs_is_no_prefix(u, "G2"@, 0);
        text::what_differs_is_no_prefix(u, "G3"@, 0);
        assert("G0"@[0] == 'G' && "G1"@[0] == 'G');
    }
    if u[0] != 'M' {
        text::what_differs_is_no_prefix(u, "M"@, 0);
    }
    if word.len() > 1 {
        assert(u[1] == text::upper_char(word[1]));
        if word[1] != '0' {
            text::what_differs_is_no_prefix(u, "G0 "@, 1);
            assert("G0"@[1] == '0');
        }
        if word[1] != '1' {
            text::what_differs_is_no_prefix(u, "G1 "@, 1);
            assert("G1"@[1] == '1');
        }
    }
}

/// The text is shown from the line that it is scrolled to, as many lines as have
/// room, each in its row.
pub proof fn the_text_is_shown_from_its_scroll(app: App, height: nat, i: int)
    requires
        app.work.gcode_text is Some,
        text::lines(app.work.gcode_text->0@).len() < usize::MAX,
        app.work.gcode_scroll < text::lines(app.work.gcode_text->0@).len(),
        0 <= i < code_rows(app, height).len(),
    ensures
        ({
            let lines = text::lines(app.work.gcode_text->0@);
            let first = app.work.gcode_scroll as int;
            &&& code_rows(app, height)[i] == code_row(first + i, lines[first + i])
            &&& code_rows(app, height).len() == (if first + height < lines.len() {
                height as int
            } else {
                lines.len() - first
            })
        }),
{
}

/// A layer shows what is in effect for it: its own value, or in brackets that of the
/// job where neither it nor the drawing has one; what is overridden stands out.
pub proof fn a_layer_shows_what_is_in_effect(l: Layer, feedrate: Real, power: Real)
    ensures
        ({
            let (f, p, n) = l.in_effect(feedrate, power);
            let number = |v: Real|
                Glyph::Number { amount: message::Amount::Exact(v), places: 0, width: 0 };
            &&& l.feedrate is Some || l.svg_feedrate is Some ==> layer_value(l, 0, feedrate, power)
                == seq![number(f)]
            &&& l.feedrate is None && l.svg_feedrate is None ==> layer_value(l, 0, feedrate, power)
                == seq![Glyph::Code('(' as int), number(f), Glyph::Code(')' as int)]
            &&& l.power is Some || l.svg_power is Some ==> layer_value(l, 1, feedrate, power)
                == seq![number(p)]
            &&& l.power is None && l.svg_power is None ==> layer_value(l, 1, feedrate, power)
                == seq![Glyph::Code('(' as int), number(p), Glyph::Code(')' as int)]
            &&& l.passes is Some || l.svg_passes is Some ==> layer_value(l, 2, feedrate, power)
                == message::plain(text::decimal(n as nat))
            &&& layer_value(l, 3, feedrate, power) == message::plain(l.mode.name())
        }),
        is_set(l, 0) == l.feedrate is Some && is_set(l, 1) == l.power is Some && is_set(l, 2)
            == l.passes is Some,
        is_set(l, 3) == !(l.mode is Default),
{
    reveal_strlit("(");
    reveal_strlit(")");
    let number = |v: Real|
        Glyph::Number { amount: message::Amount::Exact(v), places: 0, width: 0 };
    let (f, p, n) = l.in_effect(feedrate, power);
    if l.feedrate is None && l.svg_feedrate is None {
        assert(layer_value(l, 0, feedrate, power) =~= seq![
            Glyph::Code('(' as int),
            number(f),
            Glyph::Code(')' as int),
        ]);
    } else {
        assert(layer_value(l, 0, feedrate, power) =~= seq![number(f)]);
    }
    if l.power is None && l.svg_power is None {
        assert(layer_value(l, 1, feedrate, power) =~= seq![
            Glyph::Code('(' as int),
            number(p),
            Glyph::Code(')' as int),
        ]);
    } else {
        assert(layer_value(l, 1, feedrate, power) =~= seq![number(p)]);
    }
}

/// Each layer takes five rows, one layer under the other: its name, marked if it is
/// selected and has the keyboard, and its values.
pub proof fn layers_are_shown_one_under_the_other(
    app: App,
    from: int,
    to: int,
    width: u16,
    blink: bool,
)
    requires
        from <= to,
    ensures
        stacked_layers(app, from, to, width, blink).len() == 5 * (to - from),
        to > from ==> stacked_layers(app, from, to, width, blink).skip(5 * (to - 1 - from))
            == layer_rows(app, to - 1, width, blink),
        to > from ==> (layer_rows(app, to - 1, width, blink)[0][0].tone is AccentBold <==> to - 1
            == app.panel.layer_selected && app.screen.gcode_focus is Layers),
    decreases to - from,
{
    if to > from {
        layers_are_shown_one_under_the_other(app, from, to - 1, width, blink);
        let all = stacked_layers(app, from, to, width, blink);
        assert(all.skip(5 * (to - 1 - from)) =~= layer_rows(app, to - 1, width, blink));
    }
}

/// The layers that are shown end with the selected one where not all have room.
pub proof fn shown_layers_end_with_the_selected(selected: usize, total: nat, visible: nat)
    requires
        selected < total < usize::MAX,
        visible > 0,
    ensures
        ({
            let w = layer_part(selected, total, visible);
            &&& total <= visible ==> w.start == 0 && w.end == total && w.bar is None
            &&& total > visible && selected < visible ==> w.start == 0 && w.end == visible
            &&& total > visible && selected >= visible ==> w.end == selected + 1
            &&& total > visible ==> w.bar is Some
        }),
{
}

/// An edited value is the text so far with a cursor that comes and goes, and behind
/// it the complaint.
pub proof fn an_edited_value_shows_its_cursor(buf: Seq<char>, complaint: Seq<Glyph>)
    ensures
        edited_value(buf, None, true) == message::plain(" "@ + buf + "█"@),
        edited_value(buf, None, false) == message::plain(" "@ + buf + " "@),
        edited_value(buf, Some(complaint), true) == message::plain(" "@ + buf + "█"@)
            + message::plain(" ✗"@) + complaint,
{
    message::texts_are_shown_in_order(" "@, buf, 0);
    message::texts_are_shown_in_order(" "@ + buf, "█"@, 0);
    message::texts_are_shown_in_order(" "@ + buf, " "@, 0);
    assert(edited_value(buf, None, true) =~= message::plain(" "@ + buf + "█"@));
    assert(edited_value(buf, None, false) =~= message::plain(" "@ + buf + " "@));
    assert(edited_value(buf, Some(complaint), true) =~= message::plain(" "@ + buf + "█"@)
        + message::plain(" ✗"@) + complaint);
}

} // verus!
