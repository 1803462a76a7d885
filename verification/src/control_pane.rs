//! The control tab: the machine, its position, jogging, overrides and settings.
use vstd::prelude::*;

use crate::app::{ActiveTab, App, AppMode, ControlFocus};
use crate::binary64::Real;
use crate::connect_pane;
use crate::grbl::{ActivePins, BufferState, MachineState, Overrides, Pos3, Position, State};
use crate::grbl;
use crate::message::{Amount, Glyph, Message, Quantity};
use crate::message;
use crate::text;
use crate::view::{Row, Rows, Run, Tone};
use crate::view;

verus! {

/// Whether a pane of the control tab is in use.
pub open spec fn in_use(app: App, pane: ControlFocus) -> bool {
    app.screen.control_focus == pane && app.screen.active_tab is Control
}

/// Whether a pane of the control tab is in use.
pub fn pane_in_use(app: &App, pane: ControlFocus) -> (r: bool)
    ensures
        r == in_use(*app, pane),
{
    app.screen.control_focus == pane && app.screen.active_tab == ActiveTab::Control
}

// ── Status ────────────────────────────────────────────────────────────────────

/// A short name of a machine state and its tone.
pub open spec fn badge(state: State) -> Run {
    match state {
        State::Idle => view::run(Tone::GoodBold, "Idle"@),
        State::Run => view::run(Tone::GoodBold, "Run"@),
        State::Jog => view::run(Tone::AccentBold, "Jog"@),
        State::Hold(_) => view::run(Tone::WarnBold, "Hold"@),
        State::Alarm => view::run(Tone::BadBold, "ALARM"@),
        State::Home => view::run(Tone::WarnBold, "Home"@),
        State::Door(_) => view::run(Tone::WarnBold, "Door"@),
        State::Check => view::run(Tone::InfoBold, "Check"@),
        State::Sleep => view::run(Tone::InfoBold, "Sleep"@),
        State::Unknown(s) => view::run(Tone::InfoBold, s),
    }
}

fn with_badge(row: Row, state: &MachineState) -> (r: Row)
    ensures
        r@ == row@.push(badge(state@)),
{
    match state {
        MachineState::Idle => row.and(Tone::GoodBold, "Idle"),
        MachineState::Run => row.and(Tone::GoodBold, "Run"),
        MachineState::Jog => row.and(Tone::AccentBold, "Jog"),
        MachineState::Hold(_) => row.and(Tone::WarnBold, "Hold"),
        MachineState::Alarm => row.and(Tone::BadBold, "ALARM"),
        MachineState::Home => row.and(Tone::WarnBold, "Home"),
        MachineState::Door(_) => row.and(Tone::WarnBold, "Door"),
        MachineState::Check => row.and(Tone::InfoBold, "Check"),
        MachineState::Sleep => row.and(Tone::InfoBold, "Sleep"),
        MachineState::Unknown(s) => row.and(Tone::InfoBold, s.as_str()),
    }
}

/// The state of the machine, and how often it is asked for it.
pub open spec fn state_row(app: App) -> Seq<Run> {
    seq![
        view::run(Tone::Info, "  State:  "@),
        match app.machine.grbl_status {
            Some(st) => badge(st.state@),
            None => view::run(Tone::InfoBold, "--"@),
        },
        if app.ports.mode is Connected {
            view::told(
                Tone::Info,
                message::plain(" poll:"@) + message::count(
                    app.machine.status_poll_interval as nat,
                ) + message::plain("t "@),
            )
        } else {
            view::run(Tone::Bad, " not connected "@)
        },
    ]
}

fn render_state(app: &App) -> (r: Row)
    ensures
        r@ == state_row(*app),
{
    let start = Row::new().and(Tone::Info, "  State:  ");
    let row = match &app.machine.grbl_status {
        Some(st) => with_badge(start, &st.state),
        None => start.and(Tone::InfoBold, "--"),
    };
    let row = if app.ports.mode == AppMode::Connected {
        row.and_message(
            Tone::Info,
            Message::text(" poll:").then_count(
                app.machine.status_poll_interval as u64,
            ).then_text("t "),
        )
    } else {
        row.and(Tone::Bad, " not connected ")
    };
    assert(row@ =~~= state_row(*app));
    row
}

/// A number without places in seven columns, or dashes.
pub open spec fn figure(a: Option<Amount>) -> Seq<Glyph> {
    match a {
        Some(v) => message::padded(v, 0, 7),
        None => message::plain("     --"@),
    }
}

fn figure_message(q: &Option<Quantity>) -> (r: Message)
    ensures
        r@ == figure(grbl::amount_of(*q)),
{
    let m = match q {
        Some(v) => Message::new().then_padded(v, 0, 7),
        None => Message::text("     --"),
    };
    assert(m@ =~= figure(grbl::amount_of(*q)));
    m
}

/// The free blocks and bytes of the buffers in seven columns, or dashes.
pub open spec fn buffer_text(b: Option<BufferState>) -> Seq<char> {
    text::right_aligned(
        match b {
            Some(v) => text::decimal(v.available_blocks as nat) + "/"@ + text::decimal(
                v.available_bytes as nat,
            ),
            None => "--"@,
        },
        7,
    )
}

fn buffer_string(b: &Option<BufferState>) -> (r: String)
    ensures
        r@ == buffer_text(*b),
{
    let s = match b {
        Some(v) => text::joined(
            text::joined(text::decimal_of(v.available_blocks as u64).as_str(), "/").as_str(),
            text::decimal_of(v.available_bytes as u64).as_str(),
        ),
        None => "--".to_owned(),
    };
    text::align_right(s.as_str(), 7)
}

/// The number of the line executed last, or dashes.
pub open spec fn line_text(n: Option<u32>) -> Seq<char> {
    match n {
        Some(v) => text::decimal(v as nat),
        None => "--"@,
    }
}

fn line_string(n: Option<u32>) -> (r: String)
    ensures
        r@ == line_text(n),
{
    match n {
        Some(v) => text::decimal_of(v as u64),
        None => "--".to_owned(),
    }
}

/// The tone of a pin.
pub open spec fn pin_tone(active: bool, tone: Tone) -> Tone {
    if active {
        tone
    } else {
        Tone::Info
    }
}

fn tone_of_pin(active: bool, tone: Tone) -> (r: Tone)
    ensures
        r == pin_tone(active, tone),
{
    if active {
        tone
    } else {
        Tone::Info
    }
}

/// The limit switches and the probe; those that are active stand out.
pub open spec fn pins_row(pins: Option<ActivePins>) -> Seq<Run> {
    let (x, y, z, p) = match pins {
        Some(v) => (v.x_limit, v.y_limit, v.z_limit, v.probe),
        None => (false, false, false, false),
    };
    seq![
        view::run(Tone::Info, "  Limits: "@),
        view::run(pin_tone(x, Tone::BadBold), "X"@),
        view::run(Tone::Plain, " "@),
        view::run(pin_tone(y, Tone::BadBold), "Y"@),
        view::run(Tone::Plain, " "@),
        view::run(pin_tone(z, Tone::BadBold), "Z"@),
        view::run(Tone::Plain, "  Probe: "@),
        view::run(pin_tone(p, Tone::WarnBold), "P"@),
    ]
}

fn render_pins(pins: &Option<ActivePins>) -> (r: Row)
    ensures
        r@ == pins_row(*pins),
{
    let (x, y, z, p) = match pins {
        Some(v) => (v.x_limit, v.y_limit, v.z_limit, v.probe),
        None => (false, false, false, false),
    };
    Row::new().and(Tone::Info, "  Limits: ").and(tone_of_pin(x, Tone::BadBold), "X").and(
        Tone::Plain,
        " ",
    ).and(
        tone_of_pin(y, Tone::BadBold),
        "Y",
    ).and(
        Tone::Plain,
        " ",
    ).and(
        tone_of_pin(z, Tone::BadBold),
        "Z",
    ).and(
        Tone::Plain,
        "  Probe: ",
    ).and(
        tone_of_pin(p, Tone::WarnBold),
        "P",
    )
}

/// The rows about the machine, given what it last reported.
pub open spec fn report_rows(
    feed: Option<Amount>,
    speed: Option<Amount>,
    buffer: Option<BufferState>,
    line: Option<u32>,
    pins: Option<ActivePins>,
) -> Seq<Seq<Run>> {
    seq![
        seq![
            view::run(Tone::Info, "  Feed:   "@),
            view::told(Tone::Title, figure(feed) + message::plain(" mm/min"@)),
        ],
        seq![
            view::run(Tone::Info, "  Speed:  "@),
            view::told(Tone::Title, figure(speed) + message::plain(" S"@)),
        ],
        seq![
            view::run(Tone::Info, "  Buffer: "@),
            view::run(Tone::Title, buffer_text(buffer)),
            view::run(Tone::Info, "  Ln:"@),
            view::run(Tone::Title, line_text(line)),
        ],
        pins_row(pins),
    ]
}

fn render_report(
    feed: &Option<Quantity>,
    speed: &Option<Quantity>,
    buffer: &Option<BufferState>,
    line: Option<u32>,
    pins: &Option<ActivePins>,
) -> (r: Rows)
    ensures
        r@ == report_rows(
            grbl::amount_of(*feed),
            grbl::amount_of(*speed),
            *buffer,
            line,
            *pins,
        ),
{
    let r = Rows::new()
        .and(
            Row::new().and(Tone::Info, "  Feed:   ").and_message(
                Tone::Title,
                figure_message(feed).then_text(" mm/min"),
            ),
        )
        .and(
            Row::new().and(Tone::Info, "  Speed:  ").and_message(
                Tone::Title,
                figure_message(speed).then_text(" S"),
            ),
        )
        .and(
            Row::new().and(Tone::Info, "  Buffer: ").and(
                Tone::Title,
                buffer_string(buffer).as_str(),
            ).and(
                Tone::Info,
                "  Ln:",
            ).and(
                Tone::Title,
                line_string(line).as_str(),
            ),
        )
        .and(render_pins(pins));
    assert(r@ =~~= report_rows(
        grbl::amount_of(*feed),
        grbl::amount_of(*speed),
        *buffer,
        line,
        *pins,
    ));
    r
}

/// The keys for the machine.
pub open spec fn status_hints() -> Seq<Seq<Run>> {
    seq![
        seq![],
        view::single(Tone::Info, "  ?: poll  ~: resume  !: hold"@),
        view::single(Tone::Info, "  $X: unlock  $H: home  Ctrl+X: reset"@),
    ]
}

/// The rows about the machine.
pub open spec fn status_rows(app: App) -> Seq<Seq<Run>> {
    seq![state_row(app)] + (match app.machine.grbl_status {
        Some(st) => report_rows(
            grbl::amount_of(st.feed),
            grbl::amount_of(st.speed),
            st.buffer,
            st.line_number,
            st.pins,
        ),
        None => report_rows(None, None, None, None, None),
    }) + status_hints()
}

/// The machine as last reported.
pub fn render_ctrl_status(app: &App) -> (r: Rows)
    ensures
        r@ == status_rows(*app),
{
    let report = match &app.machine.grbl_status {
        Some(st) => render_report(&st.feed, &st.speed, &st.buffer, st.line_number, &st.pins),
        None => render_report(&None, &None, &None, None, &None),
    };
    let hints = Rows::new()
        .and_gap()
        .and_line(Tone::Info, "  ?: poll  ~: resume  !: hold")
        .and_line(Tone::Info, "  $X: unlock  $H: home  Ctrl+X: reset");
    Rows::new().and(render_state(app)).joined(report).joined(hints)
}

// ── Position ──────────────────────────────────────────────────────────────────

/// A coordinate in ten columns.
pub open spec fn coordinate_row(axis: Seq<char>, a: Amount) -> Seq<Run> {
    seq![
        view::run(Tone::Info, axis),
        view::told(Tone::AccentBold, message::padded(a, 3, 10) + message::plain(" mm"@)),
    ]
}

fn render_coordinate(axis: &str, q: &Quantity) -> (r: Row)
    ensures
        r@ == coordinate_row(axis@, q.amount()),
{
    let m = Message::new().then_padded(q, 3, 10).then_text(" mm");
    assert(m@ =~= message::padded(q.amount(), 3, 10) + message::plain(" mm"@));
    Row::new().and(Tone::Info, axis).and_message(Tone::AccentBold, m)
}

/// The rows of the position in work coordinates.
pub open spec fn work_rows(p: Option<Position>) -> Seq<Seq<Run>> {
    match p {
        Some(pos) => seq![
            seq![],
            coordinate_row("  X: "@, pos.x),
            coordinate_row("  Y: "@, pos.y),
            coordinate_row("  Z: "@, pos.z),
        ],
        None => seq![seq![], view::single(Tone::Info, "  ---.--- mm"@)],
    }
}

/// The position in work coordinates.
fn render_work_position(app: &App) -> (r: Rows)
    ensures
        r@ == work_rows(reported_work_pos(*app)),
{
    let p = match &app.machine.grbl_status {
        Some(st) => st.work_pos(),
        None => None,
    };
    match p {
        Some(pos) => Rows::new()
            .and_gap()
            .and(render_coordinate("  X: ", &pos.x))
            .and(render_coordinate("  Y: ", &pos.y))
            .and(render_coordinate("  Z: ", &pos.z)),
        None => Rows::new().and_gap().and_line(Tone::Info, "  ---.--- mm"),
    }
}

/// Three coordinates with their letters.
pub open spec fn triple(p: Position) -> Seq<Glyph> {
    message::plain(" X"@) + message::number(p.x, 3) + message::plain(" Y"@) + message::number(
        p.y,
        3,
    ) + message::plain(" Z"@) + message::number(p.z, 3)
}

fn triple_message(start: Message, p: &Pos3) -> (r: Message)
    ensures
        r@ == start@ + triple(p@),
{
    let m = start.then_text(" X").then_padded(&p.x, 3, 0).then_text(" Y").then_padded(
        &p.y,
        3,
        0,
    ).then_text(" Z").then_padded(&p.z, 3, 0);
    assert(m@ =~= start@ + triple(p@));
    m
}

/// A position under a name, or dashes.
pub open spec fn named(name: Seq<char>, p: Option<Position>) -> Seq<Glyph> {
    match p {
        Some(pos) => message::plain("  "@) + message::plain(name) + triple(pos),
        None => message::plain("  "@) + message::plain(name) + message::plain(": --"@),
    }
}

fn named_message(name: &str, p: &Option<Pos3>) -> (r: Message)
    ensures
        r@ == named(name@, grbl::place_of(*p)),
{
    let start = Message::text("  ").then_text(name);
    match p {
        Some(pos) => triple_message(start, pos),
        None => start.then_text(": --"),
    }
}

/// The result of probing.
pub open spec fn probed(pos: Position, success: bool) -> Seq<Glyph> {
    message::plain("  PRB"@) + triple(pos) + message::plain(
        if success {
            " OK"@
        } else {
            " FAIL"@
        },
    )
}

/// The rows below the position: in machine coordinates, the offset, the last
/// probe and the state of the G-code parser.
pub open spec fn machine_rows(app: App) -> Seq<Seq<Run>> {
    let (mpos, wco) = match app.machine.grbl_status {
        Some(st) => (grbl::place_of(st.mpos), grbl::place_of(st.wco)),
        None => (None, None),
    };
    let start = seq![
        seq![view::told(Tone::Info, named("MPos"@, mpos))],
        seq![view::told(Tone::Info, named("WCO"@, wco))],
    ];
    let parser = match app.controller.gc_state {
        Some(s) => s@,
        None => "GC: --"@,
    };
    (match app.controller.last_probe {
        Some((pos, success)) => start.push(seq![view::told(Tone::Warn, probed(pos@, success))]),
        None => start,
    }).push(seq![view::told(Tone::Info, message::plain("  GC: "@) + message::plain(parser))])
}

/// What is known beside the position in work coordinates.
fn render_machine_position(app: &App) -> (r: Rows)
    ensures
        r@ == machine_rows(*app),
{
    let (mpos, wco) = match &app.machine.grbl_status {
        Some(st) => (named_message("MPos", &st.mpos), named_message("WCO", &st.wco)),
        None => (named_message("MPos", &None), named_message("WCO", &None)),
    };
    let start = Rows::new()
        .and(Row::new().and_message(Tone::Info, mpos))
        .and(Row::new().and_message(Tone::Info, wco));
    let with_probe = match &app.controller.last_probe {
        Some((pos, success)) => {
            let m = triple_message(Message::text("  PRB"), pos).then_text(
                if *success {
                    " OK"
                } else {
                    " FAIL"
                },
            );
            start.and(Row::new().and_message(Tone::Warn, m))
        },
        None => start,
    };
    let parser = match &app.controller.gc_state {
        Some(s) => Message::text("  GC: ").then_text(s.as_str()),
        None => Message::text("  GC: ").then_text("GC: --"),
    };
    let r = with_probe.and(Row::new().and_message(Tone::Info, parser));
    assert(r@ =~~= machine_rows(*app));
    r
}

/// The three boxes of the position, one under the other.
#[derive(Debug)]
pub struct PositionBoxes {
    /// The position in work coordinates.
    pub work: Rows,
    /// What is known beside it.
    pub machine: Rows,
    /// Commands worth knowing.
    pub hints: Rows,
}

/// The work coordinates that the machine last reported.
pub open spec fn reported_work_pos(app: App) -> Option<Position> {
    match app.machine.grbl_status {
        Some(st) => st@.work_pos(),
        None => None,
    }
}

/// The commands that are worth knowing where the position is shown.
pub open spec fn position_hints() -> Seq<Seq<Run>> {
    seq![
        view::single(Tone::Info, "  G28/G30: go to stored pos"@),
        view::single(Tone::Info, "  G10 L20 P1 X0 Y0 Z0: zero WCS"@),
    ]
}

/// Where the machine is.
pub fn render_ctrl_position(app: &App) -> (r: PositionBoxes)
    ensures
        r.work@ == work_rows(reported_work_pos(*app)),
        r.machine@ == machine_rows(*app),
        r.hints@ == position_hints(),
{
    PositionBoxes {
        work: render_work_position(app),
        machine: render_machine_position(app),
        hints: Rows::new()
            .and_line(Tone::Info, "  G28/G30: go to stored pos")
            .and_line(Tone::Info, "  G10 L20 P1 X0 Y0 Z0: zero WCS"),
    }
}

// ── Jogging ───────────────────────────────────────────────────────────────────

/// One, as a number.
pub open spec fn one() -> Real {
    Real { bits: 0x3ff0_0000_0000_0000 }
}

/// The step of a jog, with more places if it is below a millimetre.
pub open spec fn step_text(step: Real) -> Seq<Glyph> {
    message::exact(
        step,
        if step.below(one()) {
            3
        } else {
            1
        },
    ) + message::plain(" mm"@)
}

fn step_message(step: Real) -> (r: Message)
    ensures
        r@ == step_text(step),
{
    let places: u8 = if step.less(Real { bits: 0x3ff0_0000_0000_0000 }) {
        3
    } else {
        1
    };
    let m = Message::new().then_real(step, places).then_text(" mm");
    assert(m@ =~= step_text(step));
    m
}

/// A dot for each step, the current one filled.
pub open spec fn dots(n: nat, current: int) -> Seq<Run>
    decreases n,
{
    if n == 0 {
        seq![view::run(Tone::Plain, "  "@)]
    } else {
        dots((n - 1) as nat, current).push(
            if n - 1 == current {
                view::run(Tone::Accent, "●"@)
            } else {
                view::run(Tone::Info, "○"@)
            },
        ).push(view::run(Tone::Plain, " "@))
    }
}

fn render_dots(current: usize) -> (r: Row)
    ensures
        r@ == dots(grbl::JOG_STEPS as nat, current as int),
{
    let mut row = Row::of(Tone::Plain, "  ");
    let mut i: usize = 0;
    while i < grbl::JOG_STEPS
        invariant
            i <= grbl::JOG_STEPS,
            row@ == dots(i as nat, current as int),
        decreases grbl::JOG_STEPS - i,
    {
        row = if i == current {
            row.and(Tone::Accent, "●")
        } else {
            row.and(Tone::Info, "○")
        };
        row = row.and(Tone::Plain, " ");
        i = i + 1;
    }
    row
}

/// The tone of a button of the pad.
pub open spec fn button(connected: bool) -> Tone {
    if connected {
        Tone::MarkedBold
    } else {
        Tone::Button
    }
}

/// The rows of the pane for jogging.
pub open spec fn jog_rows(app: App) -> Seq<Seq<Run>> {
    let b = button(app.ports.mode is Connected);
    seq![
        seq![
            view::run(Tone::Info, "  Step: "@),
            view::told(
                Tone::AccentBold,
                step_text(grbl::jog_step(app.machine.jog_step_idx as int)),
            ),
            view::run(Tone::Plain, "  "@),
        ],
        dots(grbl::JOG_STEPS as nat, app.machine.jog_step_idx as int),
        seq![
            view::told(
                Tone::Info,
                message::plain("  Feed: "@) + message::exact(
                    app.machine.jog_feedrate,
                    0,
                ) + message::plain(" mm/min"@),
            ),
        ],
        seq![],
        seq![
            view::run(Tone::Plain, "  "@),
            view::run(b, "[Z+]"@),
            view::run(Tone::Plain, "          "@),
            view::run(b, "[Y+]"@),
        ],
        seq![
            view::run(Tone::Plain, "  "@),
            view::run(b, "[Z-]"@),
            view::run(Tone::Plain, "  "@),
            view::run(b, "[X-]"@),
            view::run(Tone::Plain, "  "@),
            view::run(Tone::Info, " ◎ "@),
            view::run(Tone::Plain, "  "@),
            view::run(b, "[X+]"@),
        ],
        seq![view::run(Tone::Plain, "            "@), view::run(b, "[Y-]"@)],
        seq![],
        view::single(Tone::Info, "  ←→↑↓:XY  PgUp/Dn:Z  +/-:step"@),
        view::single(Tone::Info, "  0x85 (Esc): cancel jog"@),
        view::single(Tone::Info, "  Tab: switch focus"@),
    ]
}

/// The pane for jogging.
pub fn render_ctrl_jog(app: &App) -> (r: Rows)
    requires
        app.wf(),
    ensures
        r@ == jog_rows(*app),
{
    let b = if app.ports.mode == AppMode::Connected {
        Tone::MarkedBold
    } else {
        Tone::Button
    };
    let step = app.jog_step_mm();
    let r = Rows::new()
        .and(
            Row::new().and(Tone::Info, "  Step: ").and_message(
                Tone::AccentBold,
                step_message(step),
            ).and(
                Tone::Plain,
                "  ",
            ),
        )
        .and(render_dots(app.machine.jog_step_idx))
        .and(
            Row::new().and_message(
                Tone::Info,
                Message::text("  Feed: ").then_real(
                    app.machine.jog_feedrate,
                    0,
                ).then_text(" mm/min"),
            ),
        )
        .and_gap()
        .and(
            Row::new().and(Tone::Plain, "  ").and(b, "[Z+]").and(
                Tone::Plain,
                "          ",
            ).and(b, "[Y+]"),
        )
        .and(
            Row::new().and(Tone::Plain, "  ").and(b, "[Z-]").and(
                Tone::Plain,
                "  ",
            ).and(b, "[X-]").and(
                Tone::Plain,
                "  ",
            ).and(
                Tone::Info,
                " ◎ ",
            ).and(
                Tone::Plain,
                "  ",
            ).and(b, "[X+]"),
        )
        .and(Row::new().and(Tone::Plain, "            ").and(b, "[Y-]"))
        .and_gap()
        .and_line(Tone::Info, "  ←→↑↓:XY  PgUp/Dn:Z  +/-:step")
        .and_line(Tone::Info, "  0x85 (Esc): cancel jog")
        .and_line(Tone::Info, "  Tab: switch focus");
    assert(r@ =~~= jog_rows(*app));
    r
}

// ── Overrides ─────────────────────────────────────────────────────────────────

/// The overrides: as last reported, or as last set.
pub open spec fn overrides(app: App) -> Overrides {
    let own = Overrides {
        feed: app.machine.override_feed,
        rapid: app.machine.override_rapid,
        spindle: app.machine.override_spindle,
    };
    match app.machine.grbl_status {
        Some(st) => match st.overrides {
            Some(ov) => ov,
            None => own,
        },
        None => own,
    }
}

fn current_overrides(app: &App) -> (r: Overrides)
    ensures
        r == overrides(*app),
{
    let own = Overrides {
        feed: app.machine.override_feed,
        rapid: app.machine.override_rapid,
        spindle: app.machine.override_spindle,
    };
    match &app.machine.grbl_status {
        Some(st) => match &st.overrides {
            Some(ov) => Overrides { feed: ov.feed, rapid: ov.rapid, spindle: ov.spindle },
            None => own,
        },
        None => own,
    }
}

/// How much of a bar is filled; it is full at twice the ordinary rate.
pub open spec fn filled(percent: u8, width: nat) -> nat {
    let f = (percent * width) / 200;
    if f < width {
        f as nat
    } else {
        width
    }
}

/// A bar of a width.
pub open spec fn bar(percent: u8, width: nat) -> Seq<char> {
    text::repeat('█', filled(percent, width)) + text::repeat(
        '░',
        (width - filled(percent, width)) as nat,
    )
}

fn bar_string(percent: u8, width: usize) -> (r: String)
    requires
        width <= 1000,
    ensures
        r@ == bar(percent, width as nat),
{
    assert(percent * width <= 255 * 1000) by (nonlinear_arith)
        requires
            percent <= 255,
            width <= 1000,
    ;
    let f: usize = ((percent as usize) * width) / 200;
    let full: usize = if f < width {
        f
    } else {
        width
    };
    text::joined(
        text::repeated('█', full).as_str(),
        text::repeated('░', width - full).as_str(),
    )
}

/// A bar is as long as its width, whatever the percentage.
pub proof fn bars_keep_their_width(percent: u8, width: nat)
    ensures
        bar(percent, width).len() == width,
{
}

/// The width of the bars in a pane of a width.
pub open spec fn bar_width(width: u16) -> int {
    let w = connect_pane::less(width as int, 22);
    if w < 4 {
        4
    } else if w > 30 {
        30
    } else {
        w
    }
}

/// Whether a percentage is far from the ordinary rate.
pub open spec fn unusual(percent: u8) -> bool {
    percent < 80 || percent > 120
}

/// The row of an override.
pub open spec fn override_row(name: Seq<char>, percent: u8, width: nat) -> Seq<Run> {
    seq![
        view::run(Tone::Info, name),
        view::run(
            if unusual(percent) {
                Tone::WarnBold
            } else {
                Tone::GoodBold
            },
            text::right_aligned(text::decimal(percent as nat), 3) + "% "@,
        ),
        view::run(
            if unusual(percent) {
                Tone::Warn
            } else {
                Tone::Good
            },
            bar(percent, width),
        ),
    ]
}

fn render_override(name: &str, percent: u8, width: usize) -> (r: Row)
    requires
        width <= 1000,
    ensures
        r@ == override_row(name@, percent, width as nat),
{
    let (bold, tone) = if percent < 80 || percent > 120 {
        (Tone::WarnBold, Tone::Warn)
    } else {
        (Tone::GoodBold, Tone::Good)
    };
    let number = text::joined(
        text::align_right(text::decimal_of(percent as u64).as_str(), 3).as_str(),
        "% ",
    );
    Row::new().and(Tone::Info, name).and(bold, number.as_str()).and(
        tone,
        bar_string(percent, width).as_str(),
    )
}

/// The rows of the overrides in a pane of a width.
pub open spec fn override_rows(app: App, width: u16) -> Seq<Seq<Run>> {
    let ov = overrides(app);
    let w = bar_width(width) as nat;
    seq![
        seq![],
        override_row("  Feed    "@, ov.feed, w),
        view::single(Tone::Info, "         ↑/↓: -10/+10%  ←/→: -1/+1%"@),
        seq![],
        override_row("  Rapid   "@, ov.rapid, w),
        view::single(Tone::Info, "         r/R: cycle 25/50/100%"@),
        seq![],
        override_row("  Laser   "@, ov.spindle, w),
        view::single(Tone::Info, "         PgUp/Dn: +10/-10%  s: reset 100%"@),
        seq![],
        view::single(Tone::Info, "  0: reset all overrides to 100%"@),
        view::single(Tone::Info, "  Tab: switch focus"@),
    ]
}

/// The overrides, with bars.
pub fn render_ctrl_overrides(app: &App, width: u16) -> (r: Rows)
    ensures
        r@ == override_rows(*app, width),
{
    let ov = current_overrides(app);
    let room: usize = width.saturating_sub(22) as usize;
    let w: usize = if room < 4 {
        4
    } else if room > 30 {
        30
    } else {
        room
    };
    Rows::new()
        .and_gap()
        .and(render_override("  Feed    ", ov.feed, w))
        .and_line(Tone::Info, "         ↑/↓: -10/+10%  ←/→: -1/+1%")
        .and_gap()
        .and(render_override("  Rapid   ", ov.rapid, w))
        .and_line(Tone::Info, "         r/R: cycle 25/50/100%")
        .and_gap()
        .and(render_override("  Laser   ", ov.spindle, w))
        .and_line(Tone::Info, "         PgUp/Dn: +10/-10%  s: reset 100%")
        .and_gap()
        .and_line(Tone::Info, "  0: reset all overrides to 100%")
        .and_line(Tone::Info, "  Tab: switch focus")
}

// ── Settings of the controller ────────────────────────────────────────────────

/// The row of a setting.
pub open spec fn setting_row(key: Seq<char>, value: Seq<char>) -> Seq<Run> {
    seq![
        view::run(Tone::AccentBold, text::left_aligned(key, 6)),
        view::run(Tone::Info, " = "@),
        view::run(Tone::Title, value),
    ]
}

/// What is shown in place of settings.
pub open spec fn no_settings() -> Seq<Seq<Run>> {
    seq![
        seq![],
        view::single(Tone::Info, "  No settings received yet."@),
        view::single(Tone::Info, "  Press '$' to request settings from GRBL."@),
    ]
}

/// The rows of the controller's settings.
pub open spec fn setting_rows(list: Seq<(String, String)>) -> Seq<Seq<Run>> {
    if list.len() == 0 {
        no_settings()
    } else {
        list.map_values(|e: (String, String)| setting_row(e.0@, e.1@))
    }
}

/// The controller's settings.
pub fn render_ctrl_settings(app: &App) -> (r: Rows)
    ensures
        r@ == setting_rows(app.controller.grbl_settings@),
{
    let list = &app.controller.grbl_settings;
    if list.len() == 0 {
        return Rows::new()
            .and_gap()
            .and_line(Tone::Info, "  No settings received yet.")
            .and_line(Tone::Info, "  Press '$' to request settings from GRBL.");
    }
    let ghost all = setting_rows(list@);
    let mut rows = Rows::new();
    let mut i: usize = 0;
    while i < list.len()
        invariant
            i <= list@.len(),
            0 < list@.len(),
            all == setting_rows(list@),
            rows@ == all.take(i as int),
        decreases list@.len() - i,
    {
        let row = Row::new().and(
            Tone::AccentBold,
            text::align_left(list[i].0.as_str(), 6).as_str(),
        ).and(Tone::Info, " = ").and(Tone::Title, list[i].1.as_str());
        assert(row@ =~~= all[i as int]);
        rows = rows.and(row);
        assert(rows@ == all.take(i + 1));
        i = i + 1;
    }
    assert(all.take(list@.len() as int) == all);
    rows
}

// ── Laws ──────────────────────────────────────────────────────────────────────

/// The state of the machine is told by its tone: what is ready is good, an alarm is
/// wrong, and what waits needs care; an unknown state by its name.
pub proof fn states_are_told_by_their_tone(state: State)
    ensures
        badge(state).tone is GoodBold <==> state is Idle || state is Run,
        badge(state).tone is BadBold <==> state is Alarm,
        badge(state).tone is WarnBold <==> state is Hold || state is Home || state is Door,
        badge(state).tone is AccentBold <==> state is Jog,
        state matches State::Unknown(s) ==> badge(state).text == message::plain(s),
{
}

/// A pane is in use on its tab with the keyboard on it, and buttons are bright only
/// with a connection.
pub proof fn panes_are_in_use_on_their_tab(app: App, pane: ControlFocus, connected: bool)
    ensures
        in_use(app, pane) <==> app.screen.active_tab is Control && app.screen.control_focus == pane,
        button(connected) is MarkedBold <==> connected,
        state_row(app)[2].tone is Bad <==> !(app.ports.mode is Connected),
        app.machine.grbl_status matches Some(st) ==> state_row(app)[1] == badge(st.state@),
{
}

/// What is reported is shown as it is, and what is not as dashes, in columns of the
/// same width.
pub proof fn reports_are_shown_in_columns(a: Amount, b: BufferState, n: u32)
    ensures
        figure(Some(a)) == seq![Glyph::Number { amount: a, places: 0, width: 7 }],
        figure(None).len() == 7,
        buffer_text(Some(b)) == text::right_aligned(
            text::decimal(b.available_blocks as nat) + seq!['/'] + text::decimal(
                b.available_bytes as nat,
            ),
            7,
        ),
        buffer_text(None).len() == 7,
        line_text(Some(n)) == text::decimal(n as nat),
{
    reveal_strlit("     --");
    reveal_strlit("--");
    reveal_strlit("/");
    assert("/"@ =~= seq!['/']);
}

/// Each pin that is active stands out, and only those.
pub proof fn active_pins_stand_out(pins: ActivePins)
    ensures
        ({
            let row = pins_row(Some(pins));
            &&& row.len() == 8
            &&& row[1].tone is BadBold <==> pins.x_limit
            &&& row[3].tone is BadBold <==> pins.y_limit
            &&& row[5].tone is BadBold <==> pins.z_limit
            &&& row[7].tone is WarnBold <==> pins.probe
            &&& pins_row(None)[1].tone is Info && pins_row(None)[7].tone is Info
        }),
{
}

/// Coordinates are shown in order with their letters, in work coordinates each in a
/// row of its own.
pub proof fn coordinates_are_shown_in_order(p: Position)
    ensures
        triple(p).len() == 9,
        triple(p)[2] == (Glyph::Number { amount: p.x, places: 3, width: 0 }) && triple(p)[1]
            == Glyph::Code('X' as int),
        triple(p)[5] == (Glyph::Number { amount: p.y, places: 3, width: 0 }) && triple(p)[4]
            == Glyph::Code('Y' as int),
        triple(p)[8] == (Glyph::Number { amount: p.z, places: 3, width: 0 }) && triple(p)[7]
            == Glyph::Code('Z' as int),
        work_rows(Some(p)).len() == 4,
        work_rows(Some(p))[1][1].text[0] == (Glyph::Number { amount: p.x, places: 3, width: 10 }),
        work_rows(Some(p))[2][1].text[0] == (Glyph::Number { amount: p.y, places: 3, width: 10 }),
        work_rows(Some(p))[3][1].text[0] == (Glyph::Number { amount: p.z, places: 3, width: 10 }),
{
    reveal_strlit(" X");
    reveal_strlit(" Y");
    reveal_strlit(" Z");
}

/// The work position that is shown is the one that the last report comes to.
pub proof fn the_reported_position_is_shown(app: App)
    ensures
        app.machine.grbl_status matches Some(st) ==> reported_work_pos(app) == st@.work_pos(),
        app.machine.grbl_status is None ==> reported_work_pos(app) is None,
        app.controller.last_probe is Some ==> machine_rows(app).len() == 4,
        app.controller.last_probe is None ==> machine_rows(app).len() == 3,
{
}

/// A step below a millimetre is shown with three decimals, another with one.
pub proof fn small_steps_have_more_decimals(step: Real)
    ensures
        step.below(Real { bits: 0x3ff0_0000_0000_0000 }) ==> step_text(step)[0] == (Glyph::Number {
            amount: Amount::Exact(step),
            places: 3,
            width: 0,
        }),
        !step.below(Real { bits: 0x3ff0_0000_0000_0000 }) ==> step_text(step)[0]
            == (Glyph::Number { amount: Amount::Exact(step), places: 1, width: 0 }),
{
}

/// There is a dot for each step, and the one of the current step is filled.
pub proof fn the_current_step_has_a_filled_dot(n: nat, current: int, i: int)
    requires
        0 <= i < n,
    ensures
        dots(n, current).len() == 2 * n + 1,
        dots(n, current)[2 * i + 1].tone is Accent <==> i == current,
    decreases n,
{
    let rest = dots((n - 1) as nat, current);
    if n > 1 {
        the_current_step_has_a_filled_dot(
            (n - 1) as nat,
            current,
            if i < n - 1 {
                i
            } else {
                0
            },
        );
    } else {
        assert(rest.len() == 1);
    }
    if i < n - 1 {
        assert(dots(n, current)[2 * i + 1] == rest[2 * i + 1]);
    }
}

/// The overrides of the last report are shown if it has any, and else those that
/// were last set.
pub proof fn reported_overrides_come_first(app: App)
    ensures
        ({
            let ov = overrides(app);
            let st = app.machine.grbl_status;
            &&& st is Some && st->0.overrides is Some ==> ov == st->0.overrides->0
            &&& st is None || st->0.overrides is None ==> ov.feed == app.machine.override_feed
                && ov.rapid == app.machine.override_rapid && ov.spindle
                == app.machine.override_spindle
        }),
{
}

/// A bar is half full at the ordinary rate and full at twice that, and no column is
/// full behind an empty one.
pub proof fn bars_are_half_full_at_the_ordinary_rate(percent: u8, width: nat, i: int)
    requires
        0 <= i < width,
    ensures
        bar(percent, width).len() == width,
        bar(percent, width)[i] == (if (i + 1) * 200 <= percent * width {
            '█'
        } else {
            '░'
        }),
{
    let p = percent as int * width as int;
    vstd::arithmetic::div_mod::lemma_fundamental_div_mod(p, 200);
    let f = p / 200;
    assert(p == 200 * f + p % 200);
    if f >= width {
        assert((i + 1) * 200 <= p);
    }
}

/// A rate is unusual below four fifths and above six fifths of the ordinary one, and
/// the row of an override says so by its tone.
pub proof fn unusual_rates_need_care(name: Seq<char>, percent: u8, width: nat)
    ensures
        unusual(percent) <==> percent < 80 || percent > 120,
        override_row(name, percent, width)[1].tone is WarnBold <==> percent < 80 || percent > 120,
        override_row(name, percent, width)[1].text == message::plain(
            text::right_aligned(text::decimal(percent as nat), 3) + "% "@,
        ),
        override_row(name, percent, width)[0].text == message::plain(name),
{
}

/// The three overrides are shown in order, feed, rapid moves and laser, in bars that
/// are between four and thirty columns wide.
pub proof fn overrides_are_shown_in_order(app: App, width: u16)
    ensures
        4 <= bar_width(width) <= 30,
        26 <= width <= 52 ==> bar_width(width) == width - 22,
        override_rows(app, width)[1] == override_row(
            "  Feed    "@,
            overrides(app).feed,
            bar_width(width) as nat,
        ),
        override_rows(app, width)[4] == override_row(
            "  Rapid   "@,
            overrides(app).rapid,
            bar_width(width) as nat,
        ),
        override_rows(app, width)[7] == override_row(
            "  Laser   "@,
            overrides(app).spindle,
            bar_width(width) as nat,
        ),
{
}

/// The controller's settings are listed in order by key and value; without any a
/// hint is shown.
pub proof fn settings_are_listed_in_order(list: Seq<(String, String)>, i: int)
    requires
        0 <= i < list.len(),
    ensures
        setting_rows(list).len() == list.len(),
        setting_rows(list)[i][0].text == message::plain(text::left_aligned(list[i].0@, 6)),
        setting_rows(list)[i][2].text == message::plain(list[i].1@),
        setting_rows(seq![]) == no_settings(),
{
}

/// The rows about the machine show its feed and speed in this order, and the pins.
pub proof fn the_machine_is_shown_as_reported(app: App)
    ensures
        app.machine.grbl_status matches Some(st) ==> {
            let rows = status_rows(app);
            &&& rows[0] == state_row(app)
            &&& rows[1][1].text.take(figure(grbl::amount_of(st.feed)).len() as int) == figure(
                grbl::amount_of(st.feed),
            )
            &&& rows[2][1].text.take(figure(grbl::amount_of(st.speed)).len() as int) == figure(
                grbl::amount_of(st.speed),
            )
            &&& rows[4] == pins_row(st.pins)
        },
{
    if let Some(st) = app.machine.grbl_status {
        let rows = status_rows(app);
        let (f, s) = (figure(grbl::amount_of(st.feed)), figure(grbl::amount_of(st.speed)));
        assert(rows[1][1].text.take(f.len() as int) =~= f);
        assert(rows[2][1].text.take(s.len() as int) =~= s);
    }
}

} // verus!
