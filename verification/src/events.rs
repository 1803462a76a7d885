//! What the program does on a key.
use vstd::prelude::*;

use crate::actions::{
    do_abort_stream, do_connect, do_convert, do_disconnect, do_home, do_jog, do_render_preview,
    do_send_gcode, save_gcode_to, send_realtime, send_serial, send_serial_raw,
};
use crate::actions;
use crate::app::{
    App, Axis, BaudRate, Config, ControlFocus, Controller, FocusedPane, GCodeFocus, LayerPanel,
    Machine, OffsetEdit, Ports, Preview, Screen, Work,
};
use crate::app;
use crate::binary64::Real;
use crate::grbl;
use crate::input::CommandLine;
use crate::keys::{
    Action, BaudAction, ConsoleAction, ControlAction, InputAction, JobAction, Key, LayerAction,
    ListAction, OffsetAction, OverrideAction, PortAction, SettingsAction, read_key,
};
use crate::keys;
use crate::layers::Layer;
use crate::layers;
use crate::message::Message;
use crate::message;
use crate::settings::MachineSettings;
use crate::settings;
use crate::talk::{Conversation, Out};
use crate::text;

verus! {

/// Work outside the library that a key asks for.
#[derive(Debug)]
pub enum Request {
    /// Look for serial ports.
    RefreshPorts,
    /// Open a port with a baud rate.
    Connect(String, BaudRate),
    /// Let the user choose a file and read it.
    OpenFile,
    /// Convert the file at this path.
    Convert(String),
    /// Let the user choose a path and write this text.
    Save(String),
    /// Draw the tool path of this text.
    Render(String),
    /// Write the value of the selected field out for editing.
    BeginEdit,
    /// Read the edited text as a number.
    CommitEdit,
    /// Write the value of an override of the selected layer out for editing.
    BeginLayerEdit(usize),
    /// Read the edited text of an override as a number.
    CommitLayerEdit,
    /// Write the shift of the job along an axis out for editing.
    BeginOffsetEdit(Axis),
    /// Read the edited text of the shift as a number.
    CommitOffsetEdit,
    /// Trace the lines of the G-code text, to frame the job.
    Frame,
}

/// What handling a key came to.
#[derive(Debug)]
pub struct Outcome {
    /// Whether the screen is to be drawn again.
    pub redraw: bool,
    pub request: Option<Request>,
}

/// Something happened, and nothing is asked for.
pub open spec fn done() -> Outcome {
    Outcome { redraw: true, request: None }
}

fn redraw() -> (r: Outcome)
    ensures
        r == done(),
{
    Outcome { redraw: true, request: None }
}

/// Something is asked for.
pub open spec fn asking(request: Request) -> Outcome {
    Outcome { redraw: true, request: Some(request) }
}

// ── Baud rates and ports ──────────────────────────────────────────────────────

/// How the list of baud rates changes.
pub open spec fn baud_done(before: App, after: App, action: BaudAction) -> bool {
    let n = before.ports.baud_rates@.len();
    let i = before.ports.selected_baud_idx;
    match action {
        BaudAction::Previous => after == (App {
            ports: Ports { selected_baud_idx: app::before(i, n), ..before.ports },
            ..before
        }),
        BaudAction::Next => after == (App {
            ports: Ports { selected_baud_idx: app::behind(i, n), ..before.ports },
            ..before
        }),
        BaudAction::Close => after == (App {
            screen: Screen { baud_dropdown_open: false, ..before.screen },
            ..before
        }),
    }
}

fn handle_baud_dropdown(app: &mut App, action: BaudAction)
    requires
        old(app).wf(),
    ensures
        final(app).wf(),
        baud_done(*old(app), *final(app), action),
{
    match action {
        BaudAction::Previous => {
            app.baud_prev();
        },
        BaudAction::Next => {
            app.baud_next();
        },
        BaudAction::Close => {
            app.screen.baud_dropdown_open = false;
        },
    }
}

/// The state with another port selected.
pub open spec fn with_port(app: App, selected: Option<usize>) -> App {
    App { ports: Ports { port_list_selected: selected, ..app.ports }, ..app }
}

/// How the list of ports changes.
pub open spec fn port_done(before: App, after: App, action: PortAction, r: Outcome) -> bool {
    let n = before.ports.port_list@.len();
    let selected = before.ports.port_list_selected;
    match action {
        PortAction::Previous => r == done() && after == with_port(
            before,
            app::stepped_back(selected, n),
        ),
        PortAction::Next => r == done() && after == with_port(before, app::stepped(selected, n)),
        PortAction::First => r == done() && after == with_port(
            before,
            if n == 0 {
                selected
            } else {
                Some(0)
            },
        ),
        PortAction::Last => r == done() && after == with_port(
            before,
            if n == 0 {
                selected
            } else {
                Some((n - 1) as usize)
            },
        ),
        PortAction::Refresh => r == asking(Request::RefreshPorts) && after == before,
        PortAction::ChooseBaud => r == done() && after == (App {
            screen: Screen { baud_dropdown_open: true, ..before.screen },
            ..before
        }),
        PortAction::Disconnect => r == done() && actions::disconnected(before, after),
        PortAction::Connect => r.redraw && (r.request is None || r.request->0 is Connect)
            && actions::connect_tried(
            before,
            after,
            match r.request {
                Some(Request::Connect(path, baud)) => Some((path, baud)),
                _ => None,
            },
        ),
    }
}

fn handle_port_list(app: &mut App, action: PortAction) -> (r: Outcome)
    requires
        old(app).wf(),
    ensures
        final(app).wf(),
        port_done(*old(app), *final(app), action, r),
{
    let n = app.ports.port_list.len();
    match action {
        PortAction::Previous => {
            app.port_list_prev();
            redraw()
        },
        PortAction::Next => {
            app.port_list_next();
            redraw()
        },
        PortAction::First => {
            if n > 0 {
                app.ports.port_list_selected = Some(0);
            }
            redraw()
        },
        PortAction::Last => {
            if n > 0 {
                app.ports.port_list_selected = Some(n - 1);
            }
            redraw()
        },
        PortAction::Refresh => Outcome { redraw: true, request: Some(Request::RefreshPorts) },
        PortAction::ChooseBaud => {
            app.screen.baud_dropdown_open = true;
            redraw()
        },
        PortAction::Disconnect => {
            do_disconnect(app);
            redraw()
        },
        PortAction::Connect => match do_connect(app) {
            Some((path, baud)) => Outcome {
                redraw: true,
                request: Some(Request::Connect(path, baud)),
            },
            None => redraw(),
        },
    }
}

// ── Console ───────────────────────────────────────────────────────────────────

/// How far a page of the console goes.
pub const CONSOLE_PAGE: u16 = 10;

/// The console scrolled.
pub open spec fn console_done(c: Conversation, action: ConsoleAction) -> Conversation {
    match action {
        ConsoleAction::Up => app::scrolled_up(c, 1),
        ConsoleAction::Down => if c.scroll == 0 {
            Conversation { follow: true, ..c }
        } else {
            Conversation { scroll: (c.scroll - 1) as u16, ..c }
        },
        ConsoleAction::PageUp => app::scrolled_up(c, CONSOLE_PAGE),
        ConsoleAction::PageDown => app::scrolled_down(c, CONSOLE_PAGE),
        ConsoleAction::Bottom => Conversation { scroll: 0, follow: true, ..c },
        ConsoleAction::Top => Conversation { scroll: c.console.len() as u16, follow: false, ..c },
    }
}

fn handle_console(app: &mut App, action: ConsoleAction)
    requires
        old(app).wf(),
    ensures
        final(app).wf(),
        *final(app) == old(app).talking(final(app).talk),
        final(app).talk@ == console_done(old(app).talk@, action),
{
    match action {
        ConsoleAction::Up => {
            app.console_scroll_up();
        },
        ConsoleAction::Down => {
            app.console_scroll_down();
        },
        ConsoleAction::PageUp => {
            app.console_scroll_page_up(CONSOLE_PAGE);
        },
        ConsoleAction::PageDown => {
            app.console_scroll_page_down(CONSOLE_PAGE);
        },
        ConsoleAction::Bottom => {
            app.console_scroll_to_bottom();
        },
        ConsoleAction::Top => {
            app.console_scroll_to_top();
        },
    }
}

// ── Command line ──────────────────────────────────────────────────────────────

/// The command line after a key.
pub open spec fn input_done(line: CommandLine, action: InputAction) -> CommandLine {
    match action {
        InputAction::Submit => line.submitted(),
        InputAction::Earlier => line.recalled_earlier(),
        InputAction::Later => line.recalled_later(),
        InputAction::Left => line.moved(
            if line.at > 0 {
                line.at - 1
            } else {
                0
            },
        ),
        InputAction::Right => line.moved(
            if line.at < line.text.len() {
                line.at + 1
            } else {
                line.text.len() as int
            },
        ),
        InputAction::WordLeft => line.moved(line.word_start()),
        InputAction::WordRight => line.moved(line.word_end()),
        InputAction::Home => line.moved(0),
        InputAction::End => line.moved(line.text.len() as int),
        InputAction::DeleteBack => line.deleted_back(),
        InputAction::DeleteForward => line.deleted_forward(),
        InputAction::Clear => line.edited(seq![], 0),
        InputAction::KillToEnd => line.killed(),
        InputAction::Insert(c) => line.inserted(c),
        InputAction::Escape => CommandLine { recalled: None, ..line.edited(seq![], 0) },
    }
}

/// Whether an entered command is blank, so that it is not sent.
pub open spec fn is_blank(line: CommandLine) -> bool {
    text::trimmed(line.text).len() == 0
}

/// How the state changes on a key on the command line.
pub open spec fn command_done(before: App, after: App, action: InputAction, r: Outcome) -> bool {
    let sends = action is Submit && !is_blank(before.input@);
    &&& after == (App { input: after.input, ..before.talking(after.talk) })
    &&& after.input@ == input_done(before.input@, action)
    &&& r == (Outcome { redraw: !(action is Submit) || sends, request: None })
    &&& after.talk@ == (if !sends {
        before.talk@
    } else if before.ports.mode is Connected {
        before.talk@.send(message::plain(before.input@.text))
    } else {
        before.talk@.complain(message::plain("Not connected – command not sent."@))
    })
}

fn submit(app: &mut App) -> (r: Outcome)
    requires
        old(app).wf(),
    ensures
        final(app).wf(),
        command_done(*old(app), *final(app), InputAction::Submit, r),
{
    let line = app.input_submit();
    if text::is_empty(text::trim(line.as_str()).as_str()) {
        return Outcome { redraw: false, request: None };
    }
    send_serial(app, line);
    redraw()
}

fn handle_command_input(app: &mut App, action: InputAction) -> (r: Outcome)
    requires
        old(app).wf(),
    ensures
        final(app).wf(),
        command_done(*old(app), *final(app), action, r),
{
    match action {
        InputAction::Submit => {
            return submit(app);
        },
        InputAction::Earlier => {
            app.history_up();
        },
        InputAction::Later => {
            app.history_down();
        },
        InputAction::Left => {
            app.input_cursor_left();
        },
        InputAction::Right => {
            app.input_cursor_right();
        },
        InputAction::WordLeft => {
            app.input.word_left();
        },
        InputAction::WordRight => {
            app.input.word_right();
        },
        InputAction::Home => {
            app.input_cursor_home();
        },
        InputAction::End => {
            app.input_cursor_end();
        },
        InputAction::DeleteBack => {
            app.input_delete_back();
        },
        InputAction::DeleteForward => {
            app.input_delete_forward();
        },
        InputAction::Clear => {
            app.input.clear();
        },
        InputAction::KillToEnd => {
            app.input.kill_to_end();
        },
        InputAction::Insert(c) => {
            app.input_insert_char(c);
        },
        InputAction::Escape => {
            app.input.escape();
        },
    }
    redraw()
}

// ── Machine ───────────────────────────────────────────────────────────────────

/// The state with another jog step.
pub open spec fn with_step(app: App, idx: usize) -> App {
    App { machine: Machine { jog_step_idx: idx, ..app.machine }, ..app }
}

/// What is said and sent on a key in the pane for jogging.
pub open spec fn control_said(app: App, action: ControlAction) -> Conversation {
    let c = app.talk@;
    let connected = app.ports.mode is Connected;
    match action {
        ControlAction::Jog(dir) => if connected {
            c.send(
                dir.command(
                    grbl::jog_step(app.machine.jog_step_idx as int),
                    app.machine.jog_feedrate,
                ),
            )
        } else {
            c.complain(message::plain("Not connected – cannot jog."@))
        },
        ControlAction::Byte(byte) => c.post(Out::Byte(byte)),
        ControlAction::Unlock => c.send(message::plain("$X"@)),
        ControlAction::Home => if connected {
            actions::homed(c)
        } else {
            c.complain(message::plain("Not connected – cannot home."@))
        },
        ControlAction::ListSettings => c.send(message::plain("$$"@)),
        ControlAction::ParserState => c.send(message::plain("$G"@)),
        ControlAction::TogglePolling => c.inform(
            if app.machine.status_poll_interval == 0 {
                message::plain("Status auto-poll enabled (~200 ms)."@)
            } else {
                message::plain("Status auto-poll disabled."@)
            },
        ),
        _ => c,
    }
}

/// How the state changes on a key in the pane for jogging.
pub open spec fn control_done(before: App, after: App, action: ControlAction) -> bool {
    let idx = before.machine.jog_step_idx;
    &&& after.talk@ == control_said(before, action)
    &&& match action {
        ControlAction::LargerStep => after == with_step(
            before,
            if idx + 1 < grbl::JOG_STEPS {
                (idx + 1) as usize
            } else {
                idx
            },
        ),
        ControlAction::SmallerStep => after == with_step(
            before,
            if idx > 0 {
                (idx - 1) as usize
            } else {
                0
            },
        ),
        ControlAction::TogglePolling => after == (App {
            machine: Machine {
                status_poll_interval: if before.machine.status_poll_interval == 0 {
                    4
                } else {
                    0
                },
                ..before.machine
            },
            ..before.talking(after.talk)
        }),
        _ => after == before.talking(after.talk),
    }
}

fn toggle_polling(app: &mut App)
    requires
        old(app).wf(),
    ensures
        final(app).wf(),
        control_done(*old(app), *final(app), ControlAction::TogglePolling),
{
    if app.machine.status_poll_interval == 0 {
        app.machine.status_poll_interval = 4;
        app.talk.push_info(Message::text("Status auto-poll enabled (~200 ms)."));
    } else {
        app.machine.status_poll_interval = 0;
        app.talk.push_info(Message::text("Status auto-poll disabled."));
    }
}

fn handle_control_jog(app: &mut App, action: ControlAction)
    requires
        old(app).wf(),
    ensures
        final(app).wf(),
        control_done(*old(app), *final(app), action),
{
    match action {
        ControlAction::Jog(dir) => {
            do_jog(app, dir);
        },
        ControlAction::LargerStep => {
            app.jog_step_larger();
        },
        ControlAction::SmallerStep => {
            app.jog_step_smaller();
        },
        ControlAction::Byte(byte) => {
            send_realtime(app, byte);
        },
        ControlAction::Unlock => {
            send_serial_raw(app, Message::text("$X"));
        },
        ControlAction::Home => {
            do_home(app);
        },
        ControlAction::ListSettings => {
            send_serial_raw(app, Message::text("$$"));
        },
        ControlAction::ParserState => {
            send_serial_raw(app, Message::text("$G"));
        },
        ControlAction::TogglePolling => {
            toggle_polling(app);
        },
    }
}

/// How the state changes on a key in the pane for overrides.  A reset shows at
/// once; other changes show when the machine reports them.
pub open spec fn override_done(before: App, after: App, action: OverrideAction) -> bool {
    let m = before.machine;
    let c = before.talk@;
    let (said, machine) = match action {
        OverrideAction::ResetFeed => (
            c.post(Out::Byte(0x90)),
            Machine { override_feed: 100, ..m },
        ),
        OverrideAction::ResetRapid => (
            c.post(Out::Byte(0x95)),
            Machine { override_rapid: 100, ..m },
        ),
        OverrideAction::ResetPower => (
            c.post(Out::Byte(0x99)),
            Machine { override_spindle: 100, ..m },
        ),
        OverrideAction::ResetAll => (
            c.post(Out::Byte(0x90)).post(Out::Byte(0x95)).post(Out::Byte(0x99)),
            Machine { override_feed: 100, override_rapid: 100, override_spindle: 100, ..m },
        ),
        OverrideAction::Byte(b) => (c.post(Out::Byte(b)), m),
    };
    &&& after == (App { machine, ..before.talking(after.talk) })
    &&& after.talk@ == said
}

fn handle_control_overrides(app: &mut App, action: OverrideAction)
    requires
        old(app).wf(),
    ensures
        final(app).wf(),
        override_done(*old(app), *final(app), action),
{
    match action {
        OverrideAction::ResetFeed => {
            send_realtime(app, 0x90);
            app.machine.override_feed = 100;
        },
        OverrideAction::ResetRapid => {
            send_realtime(app, 0x95);
            app.machine.override_rapid = 100;
        },
        OverrideAction::ResetPower => {
            send_realtime(app, 0x99);
            app.machine.override_spindle = 100;
        },
        OverrideAction::ResetAll => {
            send_realtime(app, 0x90);
            send_realtime(app, 0x95);
            send_realtime(app, 0x99);
            app.machine.override_feed = 100;
            app.machine.override_rapid = 100;
            app.machine.override_spindle = 100;
        },
        OverrideAction::Byte(byte) => {
            send_realtime(app, byte);
        },
    }
}

/// The state with another setting of the controller selected.
pub open spec fn with_entry(app: App, selected: Option<usize>) -> App {
    App { controller: Controller { settings_list_selected: selected, ..app.controller }, ..app }
}

/// How the state changes on a key in the list of the controller's settings.
pub open spec fn list_done(before: App, after: App, action: ListAction) -> bool {
    let n = before.controller.grbl_settings@.len();
    let selected = before.controller.settings_list_selected;
    let i = app::chosen_or_first(selected);
    match action {
        ListAction::Previous => after == with_entry(
            before,
            if n == 0 {
                selected
            } else {
                app::stepped_back(Some(i), n)
            },
        ),
        ListAction::Next => after == with_entry(
            before,
            if n == 0 {
                selected
            } else {
                app::stepped(Some(i), n)
            },
        ),
        ListAction::Request => after == before.talking(after.talk) && after.talk@
            == before.talk@.send(message::plain("$$"@)).inform(
            message::plain("Requested GRBL settings ($$)."@),
        ),
    }
}

fn handle_control_settings(app: &mut App, action: ListAction)
    requires
        old(app).wf(),
    ensures
        final(app).wf(),
        list_done(*old(app), *final(app), action),
{
    match action {
        ListAction::Previous => {
            app.settings_prev();
        },
        ListAction::Next => {
            app.settings_next();
        },
        ListAction::Request => {
            send_serial_raw(app, Message::text("$$"));
            app.push_info(Message::text("Requested GRBL settings ($$)."));
        },
    }
}

// ── G-code ────────────────────────────────────────────────────────────────────

/// How far a page of the G-code text goes.
pub const GCODE_PAGE: usize = 20;

/// Where the G-code text is scrolled to.
pub open spec fn scrolled_to(app: App, action: JobAction) -> int {
    let at = app.work.gcode_scroll as int;
    let last = app.last_line();
    match action {
        JobAction::Up => if at == 0 {
            0
        } else {
            at - 1
        },
        JobAction::Down => if at < last {
            at + 1
        } else {
            at
        },
        JobAction::PageUp => if at <= GCODE_PAGE {
            0
        } else {
            at - GCODE_PAGE
        },
        JobAction::PageDown => if at + GCODE_PAGE < last {
            at + GCODE_PAGE
        } else {
            last
        },
        JobAction::Top => 0,
        JobAction::Bottom => last,
        _ => at,
    }
}

/// How the state changes, and what comes out, when a key asks for a conversion.
pub open spec fn convert_asked(before: App, after: App, r: Option<String>) -> bool {
    if before.work.svg_path is None {
        &&& r is None
        &&& after == before.talking(after.talk)
        &&& after.talk@ == before.talk@.complain(
            message::plain("No SVG loaded. Press 'o' to open one."@),
        ).announce(message::plain("No SVG loaded."@), Some(80))
    } else {
        actions::convert_begun(before, after, r)
    }
}

fn convert(app: &mut App) -> (r: Option<String>)
    requires
        old(app).wf(),
    ensures
        final(app).wf(),
        convert_asked(*old(app), *final(app), r),
{
    if app.work.svg_path.is_none() {
        app.talk.push_error(Message::text("No SVG loaded. Press 'o' to open one."));
        app.talk.set_status(Message::text("No SVG loaded."), Some(80));
        return None;
    }
    do_convert(app)
}

/// How the state changes, and what comes out, when a key asks for the G-code text
/// to be saved.
pub open spec fn save_asked(before: App, after: App, r: Option<String>) -> bool {
    if before.work.gcode_text is None {
        &&& r is None
        &&& after == before.talking(after.talk)
        &&& after.talk@ == before.talk@.complain(
            message::plain("No GCode to save. Convert an SVG first."@),
        ).announce(message::plain("No GCode to save."@), Some(80))
    } else {
        actions::save_begun(before, after, r)
    }
}

fn save(app: &mut App) -> (r: Option<String>)
    requires
        old(app).wf(),
    ensures
        final(app).wf(),
        save_asked(*old(app), *final(app), r),
{
    if app.work.gcode_text.is_none() {
        app.talk.push_error(Message::text("No GCode to save. Convert an SVG first."));
        app.talk.set_status(Message::text("No GCode to save."), Some(80));
        return None;
    }
    save_gcode_to(app)
}

/// How the state changes on a key on the G-code tab.
pub open spec fn job_done(before: App, after: App, action: JobAction, r: Outcome) -> bool {
    match action {
        JobAction::Open => r == asking(Request::OpenFile) && after == before,
        JobAction::Convert => r.redraw && (r.request is None || r.request->0 is Convert)
            && convert_asked(
            before,
            after,
            match r.request {
                Some(Request::Convert(path)) => Some(path),
                _ => None,
            },
        ),
        JobAction::Save => r.redraw && (r.request is None || r.request->0 is Save)
            && save_asked(
            before,
            after,
            match r.request {
                Some(Request::Save(gcode)) => Some(gcode),
                _ => None,
            },
        ),
        JobAction::Send => r == done() && actions::send_tried(before, after),
        JobAction::Abort => r == done() && actions::abort_tried(before, after),
        JobAction::Frame => r == asking(Request::Frame) && after == before,
        JobAction::FocusLayers => r == done() && after == showing(
            before,
            Screen { gcode_focus: GCodeFocus::Layers, ..before.screen },
        ),
        JobAction::EditOffset(axis) => r == asking(Request::BeginOffsetEdit(axis)) && after
            == before,
        JobAction::Invert => r == done() && after == (App {
            work: Work { invert_image: !before.work.invert_image, ..before.work },
            ..before
        }),
        _ => r == done() && after == (App {
            work: Work { gcode_scroll: scrolled_to(before, action) as usize, ..before.work },
            ..before
        }),
    }
}

fn handle_gcode_tab(app: &mut App, action: JobAction) -> (r: Outcome)
    requires
        old(app).wf(),
    ensures
        final(app).wf(),
        job_done(*old(app), *final(app), action, r),
{
    match action {
        JobAction::Open => {
            return Outcome { redraw: true, request: Some(Request::OpenFile) };
        },
        JobAction::Convert => {
            return match convert(app) {
                Some(path) => Outcome { redraw: true, request: Some(Request::Convert(path)) },
                None => redraw(),
            };
        },
        JobAction::Save => {
            return match save(app) {
                Some(gcode) => Outcome { redraw: true, request: Some(Request::Save(gcode)) },
                None => redraw(),
            };
        },
        JobAction::Send => {
            do_send_gcode(app);
        },
        JobAction::Abort => {
            do_abort_stream(app);
        },
        JobAction::Frame => {
            return Outcome { redraw: true, request: Some(Request::Frame) };
        },
        JobAction::FocusLayers => {
            app.screen.gcode_focus = GCodeFocus::Layers;
        },
        JobAction::EditOffset(axis) => {
            return Outcome { redraw: true, request: Some(Request::BeginOffsetEdit(axis)) };
        },
        JobAction::Invert => {
            app.work.invert_image = !app.work.invert_image;
        },
        JobAction::Up => {
            app.gcode_scroll_up();
        },
        JobAction::Down => {
            app.gcode_scroll_down();
        },
        JobAction::PageUp => {
            app.gcode_scroll_page_up(GCODE_PAGE);
        },
        JobAction::PageDown => {
            app.gcode_scroll_page_down(GCODE_PAGE);
        },
        JobAction::Top => {
            app.gcode_scroll_top();
        },
        JobAction::Bottom => {
            app.gcode_scroll_bottom();
        },
    }
    redraw()
}

// ── The shift of the job ──────────────────────────────────────────────────────

/// How the edit of the shift changes when its text changes to another.
pub open spec fn offset_retyped(
    before: Option<OffsetEdit>,
    after: Option<OffsetEdit>,
    text: Seq<char>,
) -> bool {
    match before {
        Some(edit) => {
            &&& after matches Some(now)
            &&& now.axis == edit.axis && now.complaint == edit.complaint
            &&& now.text@ == text
        },
        None => after is None,
    }
}

/// How the state changes on a key while the shift of the job is edited.
pub open spec fn offset_done(before: App, after: App, action: OffsetAction, r: Outcome) -> bool {
    let text = match before.offset {
        Some(edit) => edit.text@,
        None => seq![],
    };
    &&& after == (App { offset: after.offset, ..before })
    &&& match action {
        OffsetAction::Commit => after == before,
        OffsetAction::Cancel => after.offset is None,
        OffsetAction::Backspace => offset_retyped(
            before.offset,
            after.offset,
            text::shortened(text),
        ),
        OffsetAction::Type(c) => offset_retyped(before.offset, after.offset, text.push(c)),
    }
    &&& r == (match action {
        OffsetAction::Commit => asking(Request::CommitOffsetEdit),
        _ => done(),
    })
}

fn handle_offset_edit(app: &mut App, action: OffsetAction) -> (r: Outcome)
    requires
        old(app).wf(),
    ensures
        final(app).wf(),
        offset_done(*old(app), *final(app), action, r),
{
    match action {
        OffsetAction::Commit => {
            return Outcome { redraw: true, request: Some(Request::CommitOffsetEdit) };
        },
        OffsetAction::Cancel => {
            app.cancel_offset_edit();
        },
        OffsetAction::Backspace => {
            if let Some(edit) = app.offset.take() {
                let text = text::without_last(edit.text.as_str());
                app.offset = Some(OffsetEdit { text, ..edit });
            }
        },
        OffsetAction::Type(c) => {
            if let Some(edit) = app.offset.take() {
                let mut text = edit.text;
                text.push(c);
                app.offset = Some(OffsetEdit { axis: edit.axis, text, complaint: edit.complaint });
            }
        },
    }
    redraw()
}

// ── Layers ────────────────────────────────────────────────────────────────────

/// The edited text after a key.
pub open spec fn layer_retyped(buf: Seq<char>, action: LayerAction) -> Seq<char> {
    match action {
        LayerAction::Backspace => text::shortened(buf),
        LayerAction::Type(c) => buf.push(c),
        _ => buf,
    }
}

/// How the state changes when another layer is selected.
pub open spec fn layer_chosen(before: App, after: App, selected: usize) -> bool {
    if before.panel.layers@.len() == 0 {
        after == before
    } else {
        &&& after == (App {
            panel: LayerPanel {
                layers: before.panel.layers,
                layer_selected: selected,
                layer_edit_field: None,
                layer_edit_buf: after.panel.layer_edit_buf,
                layer_edit_error: None,
            },
            ..before
        })
        &&& after.panel.layer_edit_buf@.len() == 0
    }
}

/// How the state changes on a key in the list of layers.
pub open spec fn layer_done(before: App, after: App, action: LayerAction, r: Outcome) -> bool {
    let n = before.panel.layers@.len();
    let at = before.panel.layer_selected;
    &&& match action {
        LayerAction::Previous => layer_chosen(before, after, app::before(at, n)),
        LayerAction::Next => layer_chosen(before, after, app::behind(at, n)),
        LayerAction::Edit(_) => after == before,
        LayerAction::Commit => after == before,
        LayerAction::Reset => {
            &&& after == (App {
                panel: LayerPanel { layers: after.panel.layers, ..before.panel },
                ..before
            }).not_editing_layer(after.panel.layer_edit_buf)
            &&& after.panel.layer_edit_buf@.len() == 0
            &&& layers::layers(after.panel.layers@) == layers::layers(
                before.panel.layers@,
            ).map_values(|l: Layer| l.cleared())
        },
        LayerAction::CycleMode => {
            &&& after == (App {
                panel: LayerPanel { layers: after.panel.layers, ..before.panel },
                ..before
            })
            &&& layers::layers(after.panel.layers@) == app::with_next_mode(
                layers::layers(before.panel.layers@),
                at as int,
            )
        },
        LayerAction::Leave => after == showing(
            before,
            Screen { gcode_focus: GCodeFocus::GCode, ..before.screen },
        ),
        LayerAction::Cancel => after == before.not_editing_layer(after.panel.layer_edit_buf)
            && after.panel.layer_edit_buf@.len() == 0,
        _ => {
            &&& after == (App {
                panel: LayerPanel {
                    layer_edit_buf: after.panel.layer_edit_buf,
                    ..before.panel
                },
                ..before
            })
            &&& after.panel.layer_edit_buf@ == layer_retyped(before.panel.layer_edit_buf@, action)
        },
    }
    &&& r == (match action {
        LayerAction::Edit(field) => asking(Request::BeginLayerEdit(field)),
        LayerAction::Commit => asking(Request::CommitLayerEdit),
        _ => done(),
    })
}

fn handle_layer_panel(app: &mut App, action: LayerAction) -> (r: Outcome)
    requires
        old(app).wf(),
    ensures
        final(app).wf(),
        layer_done(*old(app), *final(app), action, r),
{
    match action {
        LayerAction::Previous => {
            app.layer_prev();
        },
        LayerAction::Next => {
            app.layer_next();
        },
        LayerAction::Edit(field) => {
            return Outcome { redraw: true, request: Some(Request::BeginLayerEdit(field)) };
        },
        LayerAction::CycleMode => {
            app.layer_cycle_mode();
        },
        LayerAction::Reset => {
            app.layer_clear_all();
        },
        LayerAction::Leave => {
            app.screen.gcode_focus = GCodeFocus::GCode;
        },
        LayerAction::Commit => {
            return Outcome { redraw: true, request: Some(Request::CommitLayerEdit) };
        },
        LayerAction::Cancel => {
            app.layer_cancel_edit();
        },
        LayerAction::Backspace => {
            app.panel.layer_edit_buf = text::without_last(app.panel.layer_edit_buf.as_str());
        },
        LayerAction::Type(c) => {
            app.panel.layer_edit_buf.push(c);
        },
    }
    redraw()
}

/// How the state changes when the tool path is asked for.
pub open spec fn render_done(before: App, after: App, r: Outcome) -> bool {
    &&& r.redraw
    &&& r.request is None || r.request->0 is Render
    &&& actions::render_begun(
        before,
        after,
        match r.request {
            Some(Request::Render(gcode)) => Some(gcode),
            _ => None,
        },
    )
}

fn handle_preview_tab(app: &mut App) -> (r: Outcome)
    requires
        old(app).wf(),
    ensures
        final(app).wf(),
        render_done(*old(app), *final(app), r),
{
    match do_render_preview(app) {
        Some(gcode) => Outcome { redraw: true, request: Some(Request::Render(gcode)) },
        None => redraw(),
    }
}

// ── Settings ──────────────────────────────────────────────────────────────────

/// The state with another field selected.
pub open spec fn with_field(app: App, selected: usize) -> App {
    App { config: Config { settings_selected: selected, ..app.config }, ..app }
}

/// The edited text after a key.
pub open spec fn retyped(buf: Option<Seq<char>>, action: SettingsAction) -> Option<Seq<char>> {
    match buf {
        None => None,
        Some(b) => match action {
            SettingsAction::Backspace => Some(text::shortened(b)),
            SettingsAction::Type(c) => Some(b.push(c)),
            SettingsAction::Cancel => None,
            _ => Some(b),
        },
    }
}

/// How the state changes on a key on the settings tab.
pub open spec fn settings_done(
    before: App,
    after: App,
    action: SettingsAction,
    r: Outcome,
) -> bool {
    let at = before.config.settings_selected;
    &&& match action {
        SettingsAction::Previous => after == with_field(
            before,
            if at > 0 {
                (at - 1) as usize
            } else {
                0
            },
        ),
        SettingsAction::Next => after == with_field(
            before,
            if at < settings::FIELD_COUNT - 1 {
                (at + 1) as usize
            } else {
                at
            },
        ),
        SettingsAction::First => after == with_field(before, 0),
        SettingsAction::Last => after == with_field(before, (settings::FIELD_COUNT - 1) as usize),
        SettingsAction::Begin => after == before,
        SettingsAction::Commit => after == before,
        SettingsAction::Toggle => {
            &&& after == (App {
                config: Config {
                    machine_settings: after.config.machine_settings,
                    ..before.config
                },
                ..before
            })
            &&& after.config.machine_settings@ == (if settings::FIRST_SWITCH <= at
                < settings::FIELD_COUNT {
                before.config.machine_settings@.with_switch(at as int, !before.switch_is_on())
            } else {
                before.config.machine_settings@
            })
        },
        SettingsAction::Reset => {
            &&& after == (App {
                config: Config {
                    machine_settings: after.config.machine_settings,
                    ..before.config
                },
                ..before.talking(after.talk)
            })
            &&& after.config.machine_settings@ == settings::default_settings()
            &&& after.talk@ == before.talk@.announce(
                message::plain("Settings reset to defaults."@),
                Some(80),
            )
        },
        SettingsAction::Cancel => after == (App {
            config: Config {
                settings_edit_buf: None,
                settings_edit_error: None,
                ..before.config
            },
            ..before
        }),
        _ => {
            &&& after == (App {
                config: Config {
                    settings_edit_buf: after.config.settings_edit_buf,
                    ..before.config
                },
                ..before
            })
            &&& text::opt(after.config.settings_edit_buf) == retyped(
                text::opt(before.config.settings_edit_buf),
                action,
            )
        },
    }
    &&& r == (match action {
        SettingsAction::Begin => asking(Request::BeginEdit),
        SettingsAction::Commit => asking(Request::CommitEdit),
        _ => done(),
    })
}

fn retype(app: &mut App, typed: Option<char>)
    requires
        old(app).wf(),
    ensures
        final(app).wf(),
        *final(app) == (App {
            config: Config {
                settings_edit_buf: final(app).config.settings_edit_buf,
                ..old(app).config
            },
            ..*old(app)
        }),
        text::opt(final(app).config.settings_edit_buf) == retyped(
            text::opt(old(app).config.settings_edit_buf),
            match typed {
                Some(c) => SettingsAction::Type(c),
                None => SettingsAction::Backspace,
            },
        ),
{
    match app.config.settings_edit_buf.take() {
        Some(mut buf) => {
            match typed {
                Some(c) => {
                    buf.push(c);
                    app.config.settings_edit_buf = Some(buf);
                },
                None => {
                    app.config.settings_edit_buf = Some(text::without_last(buf.as_str()));
                },
            }
        },
        None => {},
    }
}

fn handle_settings_tab(app: &mut App, action: SettingsAction) -> (r: Outcome)
    requires
        old(app).wf(),
    ensures
        final(app).wf(),
        settings_done(*old(app), *final(app), action, r),
{
    match action {
        SettingsAction::Previous => {
            app.settings_tab_prev();
        },
        SettingsAction::Next => {
            app.settings_tab_next();
        },
        SettingsAction::First => {
            app.config.settings_selected = 0;
        },
        SettingsAction::Last => {
            app.config.settings_selected = settings::FIELD_COUNT - 1;
        },
        SettingsAction::Begin => {
            return Outcome { redraw: true, request: Some(Request::BeginEdit) };
        },
        SettingsAction::Toggle => {
            app.settings_toggle_bool();
        },
        SettingsAction::Reset => {
            app.config.machine_settings = MachineSettings::default();
            app.set_status(Message::text("Settings reset to defaults."), Some(80));
        },
        SettingsAction::Commit => {
            return Outcome { redraw: true, request: Some(Request::CommitEdit) };
        },
        SettingsAction::Cancel => {
            app.settings_cancel_edit();
        },
        SettingsAction::Backspace => {
            retype(app, None);
        },
        SettingsAction::Type(c) => {
            retype(app, Some(c));
        },
    }
    redraw()
}

/// Enter the edited text into the selected field, given what reading the trimmed
/// text as a number gave, and say so if it was taken.
pub fn commit_setting(app: &mut App, number: Result<Real, String>)
    requires
        old(app).wf(),
    ensures
        final(app).wf(),
        ({
            let complaint = match old(app).config.settings_edit_buf {
                Some(buf) => settings::entered(
                    old(app).config.machine_settings@,
                    old(app).config.settings_selected as int,
                    buf@,
                    settings::reading(number),
                ).1,
                None => None,
            };
            &&& *final(app) == (App { config: final(app).config, ..old(app).talking(final(app).talk) })
            &&& final(app).config.settings_selected == old(app).config.settings_selected
            &&& final(app).config.machine_settings@ == (match old(app).config.settings_edit_buf {
                Some(buf) => settings::entered(
                    old(app).config.machine_settings@,
                    old(app).config.settings_selected as int,
                    buf@,
                    settings::reading(number),
                ).0,
                None => old(app).config.machine_settings@,
            })
            &&& complaint is None ==> final(app).config.settings_edit_buf is None
                && final(app).talk@ == old(app).talk@.announce(
                message::plain("Setting saved."@),
                Some(60),
            )
            &&& complaint is Some ==> final(app).config.settings_edit_buf
                == old(app).config.settings_edit_buf && text::opt(
                final(app).config.settings_edit_error,
            ) == complaint && final(app).talk@ == old(app).talk@
        }),
{
    if app.settings_commit_edit(number) {
        app.set_status(Message::text("Setting saved."), Some(60));
    }
}

// ── Panes ─────────────────────────────────────────────────────────────────────

/// Go to the next pane of the connect tab.
pub fn cycle_focus(app: &mut App)
    requires
        old(app).wf(),
    ensures
        final(app).wf(),
        *final(app) == (App {
            screen: Screen { focused: old(app).screen.focused.following(), ..old(app).screen },
            ..*old(app)
        }),
{
    app.screen.focused = match app.screen.focused {
        FocusedPane::SerialList => FocusedPane::Console,
        FocusedPane::Console => FocusedPane::CommandInput,
        FocusedPane::CommandInput => FocusedPane::SerialList,
    };
}

/// Go to the previous pane of the connect tab.
pub fn cycle_focus_rev(app: &mut App)
    requires
        old(app).wf(),
    ensures
        final(app).wf(),
        *final(app) == (App {
            screen: Screen { focused: old(app).screen.focused.preceding(), ..old(app).screen },
            ..*old(app)
        }),
{
    app.screen.focused = match app.screen.focused {
        FocusedPane::SerialList => FocusedPane::CommandInput,
        FocusedPane::Console => FocusedPane::SerialList,
        FocusedPane::CommandInput => FocusedPane::Console,
    };
}

/// Go to the next pane of the control tab.
pub fn cycle_control_focus(app: &mut App)
    requires
        old(app).wf(),
    ensures
        final(app).wf(),
        *final(app) == (App {
            screen: Screen {
                control_focus: old(app).screen.control_focus.following(),
                ..old(app).screen
            },
            ..*old(app)
        }),
{
    app.screen.control_focus = match app.screen.control_focus {
        ControlFocus::Jog => ControlFocus::Overrides,
        ControlFocus::Overrides => ControlFocus::Settings,
        ControlFocus::Settings => ControlFocus::Jog,
    };
}

/// Go to the previous pane of the control tab.
pub fn cycle_control_focus_rev(app: &mut App)
    requires
        old(app).wf(),
    ensures
        final(app).wf(),
        *final(app) == (App {
            screen: Screen {
                control_focus: old(app).screen.control_focus.preceding(),
                ..old(app).screen
            },
            ..*old(app)
        }),
{
    app.screen.control_focus = match app.screen.control_focus {
        ControlFocus::Jog => ControlFocus::Settings,
        ControlFocus::Overrides => ControlFocus::Jog,
        ControlFocus::Settings => ControlFocus::Overrides,
    };
}

// ── Keys ──────────────────────────────────────────────────────────────────────

/// The state with another screen.
pub open spec fn showing(app: App, screen: Screen) -> App {
    App { screen, ..app }
}

/// How the state changes when the user leaves: the connection is closed first.
pub open spec fn quit_done(before: App, after: App) -> bool {
    &&& after.screen.should_quit
    &&& actions::disconnected(
        before,
        showing(after, Screen { should_quit: before.screen.should_quit, ..after.screen }),
    )
}

/// How the state changes, and what comes out, for a meaning of a key.
pub open spec fn performed(before: App, after: App, action: Action, r: Outcome) -> bool {
    let s = before.screen;
    match action {
        Action::Ignore => after == before && r == (Outcome { redraw: false, request: None }),
        Action::OpenHelp => after == before && r == done(),
        Action::CloseHelp => after == before && r == done(),
        Action::DismissError => after == (App {
            work: Work { conversion_error_popup: None, ..before.work },
            ..before
        }) && r == done(),
        Action::Quit => quit_done(before, after) && r == done(),
        Action::Show(tab) => after == showing(before, Screen { active_tab: tab, ..s }) && r
            == done(),
        Action::NextPane => after == showing(
            before,
            Screen { focused: s.focused.following(), ..s },
        ) && r == done(),
        Action::PreviousPane => after == showing(
            before,
            Screen { focused: s.focused.preceding(), ..s },
        ) && r == done(),
        Action::NextControl => after == showing(
            before,
            Screen { control_focus: s.control_focus.following(), ..s },
        ) && r == done(),
        Action::PreviousControl => after == showing(
            before,
            Screen { control_focus: s.control_focus.preceding(), ..s },
        ) && r == done(),
        Action::Baud(a) => baud_done(before, after, a) && r == done(),
        Action::Port(a) => port_done(before, after, a, r),
        Action::Console(a) => after == before.talking(after.talk) && after.talk@ == console_done(
            before.talk@,
            a,
        ) && r == done(),
        Action::Input(a) => command_done(before, after, a, r),
        Action::Control(a) => control_done(before, after, a) && r == done(),
        Action::Override(a) => override_done(before, after, a) && r == done(),
        Action::List(a) => list_done(before, after, a) && r == done(),
        Action::Job(a) => job_done(before, after, a, r),
        Action::Offset(a) => offset_done(before, after, a, r),
        Action::Layer(a) => layer_done(before, after, a, r),
        Action::Render => render_done(before, after, r),
        Action::ToggleTravel => after == (App {
            preview: Preview {
                show_travel_lines: !before.preview.show_travel_lines,
                ..before.preview
            },
            ..before
        }) && r == done(),
        Action::Settings(a) => settings_done(before, after, a, r),
    }
}

fn quit(app: &mut App)
    requires
        old(app).wf(),
    ensures
        final(app).wf(),
        quit_done(*old(app), *final(app)),
{
    do_disconnect(app);
    let ghost between = *app;
    app.screen.should_quit = true;
    assert(showing(
        *app,
        Screen { should_quit: old(app).screen.should_quit, ..app.screen },
    ) == between);
}

/// Do what a key means.
#[verifier::rlimit(40)]
pub fn perform(app: &mut App, action: Action) -> (r: Outcome)
    requires
        old(app).wf(),
    ensures
        final(app).wf(),
        performed(*old(app), *final(app), action, r),
{
    match action {
        Action::Ignore => {
            return Outcome { redraw: false, request: None };
        },
        Action::OpenHelp => {},
        Action::CloseHelp => {},
        Action::DismissError => {
            app.dismiss_conversion_error();
        },
        Action::Quit => {
            quit(app);
        },
        Action::Show(tab) => {
            app.screen.active_tab = tab;
        },
        Action::NextPane => {
            cycle_focus(app);
        },
        Action::PreviousPane => {
            cycle_focus_rev(app);
        },
        Action::NextControl => {
            cycle_control_focus(app);
        },
        Action::PreviousControl => {
            cycle_control_focus_rev(app);
        },
        Action::Baud(a) => {
            handle_baud_dropdown(app, a);
        },
        Action::Port(a) => {
            return handle_port_list(app, a);
        },
        Action::Console(a) => {
            handle_console(app, a);
        },
        Action::Input(a) => {
            return handle_command_input(app, a);
        },
        Action::Control(a) => {
            handle_control_jog(app, a);
        },
        Action::Override(a) => {
            handle_control_overrides(app, a);
        },
        Action::List(a) => {
            handle_control_settings(app, a);
        },
        Action::Job(a) => {
            return handle_gcode_tab(app, a);
        },
        Action::Offset(a) => {
            return handle_offset_edit(app, a);
        },
        Action::Layer(a) => {
            return handle_layer_panel(app, a);
        },
        Action::Render => {
            return handle_preview_tab(app);
        },
        Action::ToggleTravel => {
            app.preview.show_travel_lines = !app.preview.show_travel_lines;
        },
        Action::Settings(a) => {
            return handle_settings_tab(app, a);
        },
    }
    redraw()
}

/// Handle a key.
pub fn handle_key(app: &mut App, key: Key, show_help: &mut bool) -> (r: Outcome)
    requires
        old(app).wf(),
    ensures
        final(app).wf(),
        performed(*old(app), *final(app), keys::meaning(*old(app), *old(show_help), key), r),
        *final(show_help) == (match keys::meaning(*old(app), *old(show_help), key) {
            Action::OpenHelp => true,
            Action::CloseHelp => false,
            _ => *old(show_help),
        }),
{
    let action = read_key(app, *show_help, key);
    match action {
        Action::OpenHelp => {
            *show_help = true;
        },
        Action::CloseHelp => {
            *show_help = false;
        },
        _ => {},
    }
    perform(app, action)
}

/// A key that is not handled changes nothing.
pub proof fn ignored_keys_change_nothing(before: App, after: App, r: Outcome)
    requires
        performed(before, after, Action::Ignore, r),
    ensures
        after == before,
        !r.redraw,
{
}

/// Who leaves has no connection any more, and a connection that there was has
/// been told to end.
pub proof fn leaving_closes_the_connection(before: App, after: App, r: Outcome)
    requires
        before.wf(),
        performed(before, after, Action::Quit, r),
    ensures
        after.screen.should_quit,
        after.ports.mode is Disconnected,
        before.talk@.link is Open ==> after.talk@.outbox == before.talk@.outbox.push(
            Out::Disconnect,
        ),
{
}

// ── After the requests ────────────────────────────────────────────────────────

/// Note that a dialog has covered the screen.
pub fn dialog_closed(app: &mut App)
    requires
        old(app).wf(),
    ensures
        final(app).wf(),
        *final(app) == showing(*old(app), (Screen { needs_clear: true, ..old(app).screen })),
{
    app.screen.needs_clear = true;
}

/// Note that the user chose no file to open.
pub fn nothing_opened(app: &mut App)
    requires
        old(app).wf(),
    ensures
        final(app).wf(),
        *final(app) == old(app).talking(final(app).talk),
        final(app).talk@ == old(app).talk@.announce(message::plain("No file selected."@), Some(60)),
{
    app.set_status(Message::text("No file selected."), Some(60));
}

/// Note that the user chose no path to save to.
pub fn nothing_saved(app: &mut App)
    requires
        old(app).wf(),
    ensures
        final(app).wf(),
        *final(app) == old(app).talking(final(app).talk),
        final(app).talk@ == old(app).talk@.announce(message::plain("Save cancelled."@), Some(60)),
{
    app.set_status(Message::text("Save cancelled."), Some(60));
}

/// The name under which G-code is saved unless another is chosen, given the name
/// of the drawing without its extension.
pub fn default_save_name(stem: Option<&str>) -> (r: String)
    ensures
        r@ == (match stem {
            Some(s) => s@ + ".gcode"@,
            None => "output.gcode"@,
        }),
{
    match stem {
        Some(s) => text::joined(s, ".gcode"),
        None => "output.gcode".to_owned(),
    }
}

// ── Laws ──────────────────────────────────────────────────────────────────────

/// A tab is shown as asked for, the keyboard goes round the panes, and nothing of
/// the work, the settings or the connection changes on the way.
pub proof fn the_screen_shows_what_is_asked_for(before: App, after: App, action: Action, r: Outcome)
    requires
        performed(before, after, action, r),
        action is Show || action is NextPane || action is PreviousPane || action is NextControl
            || action is PreviousControl,
    ensures
        action matches Action::Show(tab) ==> after.screen.active_tab == tab && after.screen.focused
            == before.screen.focused && after.screen.control_focus == before.screen.control_focus,
        action is NextPane ==> after.screen.focused == before.screen.focused.following()
            && after.screen.active_tab == before.screen.active_tab,
        action is PreviousPane ==> after.screen.focused == before.screen.focused.preceding(),
        action is NextControl ==> after.screen.control_focus
            == before.screen.control_focus.following(),
        action is PreviousControl ==> after.screen.control_focus
            == before.screen.control_focus.preceding(),
        after.work == before.work && after.config == before.config && after.ports == before.ports
            && after.talk == before.talk && after.machine == before.machine,
        r.redraw && r.request is None,
{
}

/// Baud rates are gone through in a ring, and closing their list keeps the choice.
pub proof fn baud_rates_are_chosen_in_a_ring(
    before: App,
    after: App,
    action: BaudAction,
    r: Outcome,
)
    requires
        before.wf(),
        before.ports.baud_rates@.len() <= usize::MAX,
        performed(before, after, Action::Baud(action), r),
    ensures
        ({
            let n = before.ports.baud_rates@.len();
            let (i, j) = (before.ports.selected_baud_idx, after.ports.selected_baud_idx);
            &&& action is Next ==> j == (if i + 1 < n { i + 1 } else { 0 })
            &&& action is Previous ==> j == (if i > 0 { i - 1 } else { n - 1 })
            &&& action is Close ==> j == i && !after.screen.baud_dropdown_open
            &&& !(action is Close) ==> after.screen == before.screen
            &&& after.ports.baud_rates == before.ports.baud_rates && after.talk == before.talk
        }),
{
    app::steps_go_round(before.ports.selected_baud_idx, before.ports.baud_rates@.len());
}

/// The list of ports is gone through in a ring or to its ends; looking for ports is
/// asked for, and their list is left as it is.
pub proof fn ports_are_chosen_in_a_ring(before: App, after: App, action: PortAction, r: Outcome)
    requires
        performed(before, after, Action::Port(action), r),
        before.ports.port_list@.len() <= usize::MAX,
    ensures
        ({
            let n = before.ports.port_list@.len();
            let (s, t) = (before.ports.port_list_selected, after.ports.port_list_selected);
            &&& action is Next && n > 0 ==> (s matches Some(i) ==> (i < n ==> t == Some(
                (if i + 1 < n { i + 1 } else { 0 }) as usize,
            )))
            &&& action is Previous && n > 0 ==> (s matches Some(i) ==> (i < n ==> t == Some(
                (if i > 0 { i - 1 } else { n - 1 }) as usize,
            )))
            &&& action is First && n > 0 ==> t == Some(0usize)
            &&& action is Last && n > 0 ==> t == Some((n - 1) as usize)
            &&& action is Refresh ==> after == before && (r.request matches Some(Request::RefreshPorts))
            &&& action is ChooseBaud ==> after.screen.baud_dropdown_open && after.ports
                == before.ports
            &&& after.ports.port_list == before.ports.port_list
            &&& action is Connect ==> (r.request matches Some(Request::Connect(path, baud))
                ==> before.chosen_port() == Some(path@))
            &&& action is Disconnect ==> after.ports.mode is Disconnected
            &&& r.redraw
        }),
{
    if let Some(i) = before.ports.port_list_selected {
        if i < before.ports.port_list@.len() {
            app::steps_go_round(i, before.ports.port_list@.len());
        }
    }
}

/// The console is scrolled by a line, by ten, or to its ends; at its end it follows,
/// and away from it not.
pub proof fn the_console_is_scrolled(c: Conversation)
    requires
        c.console.len() <= u16::MAX,
    ensures
        ({
            let up = console_done(c, ConsoleAction::Up);
            let down = console_done(c, ConsoleAction::Down);
            let page_up = console_done(c, ConsoleAction::PageUp);
            let page_down = console_done(c, ConsoleAction::PageDown);
            let top = console_done(c, ConsoleAction::Top);
            let bottom = console_done(c, ConsoleAction::Bottom);
            &&& !up.follow && !page_up.follow && !top.follow && bottom.follow
            &&& c.scroll < u16::MAX ==> up.scroll == c.scroll + 1
            &&& c.scroll <= u16::MAX - 10 ==> page_up.scroll == c.scroll + 10
            &&& c.scroll > 0 ==> down.scroll == c.scroll - 1
            &&& c.scroll == 0 ==> down.follow && down.scroll == 0
            &&& c.scroll > 10 ==> page_down.scroll == c.scroll - 10
            &&& c.scroll <= 10 ==> page_down.scroll == 0 && page_down.follow
            &&& top.scroll == c.console.len() && bottom.scroll == 0
            &&& up.console == c.console && down.console == c.console && top.outbox == c.outbox
        }),
{
}

/// Keys on the command line move its cursor by a character or to an end, take
/// characters away or put one in, and leave the history alone unless they go
/// through it or enter the command.
pub proof fn the_command_line_is_edited(line: CommandLine, c: char)
    requires
        0 <= line.at <= line.text.len(),
    ensures
        ({
            let to = |a: InputAction| input_done(line, a);
            &&& to(InputAction::Left).text == line.text && to(InputAction::Left).at == (if line.at
                > 0 {
                line.at - 1
            } else {
                0
            })
            &&& to(InputAction::Right).text == line.text && to(InputAction::Right).at == (
            if line.at < line.text.len() {
                line.at + 1
            } else {
                line.at
            })
            &&& to(InputAction::Home).at == 0 && to(InputAction::Home).text == line.text
            &&& to(InputAction::End).at == line.text.len() && to(InputAction::End).text == line.text
            &&& to(InputAction::WordLeft).text == line.text && to(InputAction::WordRight).text
                == line.text
            &&& to(InputAction::Insert(c)).text.len() == line.text.len() + 1 && to(
                InputAction::Insert(c),
            ).text[line.at] == c && to(InputAction::Insert(c)).at == line.at + 1
            &&& line.at > 0 ==> to(InputAction::DeleteBack).text.len() == line.text.len() - 1 && to(
                InputAction::DeleteBack,
            ).at == line.at - 1
            &&& line.at < line.text.len() ==> to(InputAction::DeleteForward).text.len()
                == line.text.len() - 1 && to(InputAction::DeleteForward).at == line.at
            &&& to(InputAction::Clear).text.len() == 0 && to(InputAction::Clear).at == 0 && to(
                InputAction::Clear,
            ).history == line.history && to(InputAction::Clear).recalled == line.recalled
            &&& to(InputAction::Escape).text.len() == 0 && to(InputAction::Escape).recalled is None
                && to(InputAction::Escape).history == line.history
            &&& to(InputAction::KillToEnd).text == line.text.take(line.at) && to(
                InputAction::KillToEnd,
            ).at == line.at
            &&& to(InputAction::Submit).text.len() == 0
            &&& to(InputAction::Earlier).history == line.history && to(InputAction::Later).history
                == line.history
        }),
{
}

/// The word keys stop at the beginnings of words, on this side of the cursor and on
/// the other.
pub proof fn the_word_keys_stop_at_words(line: CommandLine)
    requires
        0 <= line.at <= line.text.len(),
    ensures
        ({
            let (a, b) = (
                input_done(line, InputAction::WordLeft).at,
                input_done(line, InputAction::WordRight).at,
            );
            &&& 0 <= a <= line.at <= b <= line.text.len()
            &&& a > 0 ==> text::is_space(line.text[a - 1])
            &&& b < line.text.len() ==> !text::is_space(line.text[b])
        }),
{
    crate::input::a_word_begins_behind_white_space(line);
    crate::input::the_next_word_begins_where_white_space_ends(line);
}

/// An entered command is sent as it was typed if there is a connection and it is
/// not blank, and else nothing is sent; it leaves the line either way.
pub proof fn an_entered_command_is_sent(before: App, after: App, r: Outcome)
    requires
        performed(before, after, Action::Input(InputAction::Submit), r),
    ensures
        ({
            let typed = before.input@.text;
            let blank = text::trimmed(typed).len() == 0;
            &&& after.input@.text.len() == 0
            &&& !blank && before.ports.mode is Connected && before.talk@.link is Open
                ==> after.talk@.outbox == before.talk@.outbox.push(Out::Line(message::plain(typed)))
            &&& blank ==> after.talk@ == before.talk@ && !r.redraw
            &&& !blank && !(before.ports.mode is Connected) ==> after.talk@.outbox
                == before.talk@.outbox
            &&& !blank ==> after.input@.history == before.input@.history.push(typed) && r.redraw
            &&& after.ports == before.ports && after.work == before.work
        }),
{
}

/// The keys of the machine send what they stand for over an open link: a jog by the
/// step and at the speed that are set, a real-time byte, or a command.
pub proof fn machine_keys_send_what_they_stand_for(
    before: App,
    after: App,
    action: ControlAction,
    r: Outcome,
)
    requires
        performed(before, after, Action::Control(action), r),
        before.ports.mode is Connected,
        before.talk@.link is Open,
    ensures
        ({
            let (old_box, new_box) = (before.talk@.outbox, after.talk@.outbox);
            &&& action matches ControlAction::Jog(dir) ==> new_box == old_box.push(
                Out::Line(
                    dir.command(
                        grbl::jog_step(before.machine.jog_step_idx as int),
                        before.machine.jog_feedrate,
                    ),
                ),
            )
            &&& action matches ControlAction::Byte(b) ==> new_box == old_box.push(Out::Byte(b))
            &&& action is Unlock ==> new_box == old_box.push(Out::Line(message::plain("$X"@)))
            &&& action is Home ==> new_box == old_box.push(Out::Line(message::plain("$H"@)))
            &&& action is ListSettings ==> new_box == old_box.push(
                Out::Line(message::plain("$$"@)),
            )
            &&& action is ParserState ==> new_box == old_box.push(Out::Line(message::plain("$G"@)))
            &&& action is LargerStep || action is SmallerStep || action is TogglePolling ==> new_box
                == old_box
        }),
{
}

/// The step of a jog is made one size larger or smaller, as far as there is one;
/// polling is turned on at four ticks, or off; no other key of the machine changes
/// how it is moved.
pub proof fn the_step_changes_by_one_size(
    before: App,
    after: App,
    action: ControlAction,
    r: Outcome,
)
    requires
        before.wf(),
        performed(before, after, Action::Control(action), r),
    ensures
        ({
            let (a, b) = (before.machine, after.machine);
            &&& action is LargerStep ==> b.jog_step_idx == (if a.jog_step_idx < 4 {
                a.jog_step_idx + 1
            } else {
                4
            })
            &&& action is SmallerStep ==> b.jog_step_idx == (if a.jog_step_idx > 0 {
                a.jog_step_idx - 1
            } else {
                0
            })
            &&& action is TogglePolling ==> b.status_poll_interval == (if a.status_poll_interval
                == 0 {
                4u32
            } else {
                0
            })
            &&& !(action is LargerStep || action is SmallerStep) ==> b.jog_step_idx
                == a.jog_step_idx
            &&& !(action is TogglePolling) ==> b.status_poll_interval == a.status_poll_interval
            &&& b.jog_feedrate == a.jog_feedrate && b.override_feed == a.override_feed
            &&& after.work == before.work && after.config == before.config
        }),
{
}

/// Without a connection the machine is neither jogged nor homed: nothing is sent,
/// and the user is told.
pub proof fn nothing_moves_without_a_connection(
    before: App,
    after: App,
    action: ControlAction,
    r: Outcome,
)
    requires
        performed(before, after, Action::Control(action), r),
        before.ports.mode is Disconnected,
        action is Jog || action is Home,
    ensures
        after.talk@.outbox == before.talk@.outbox,
        after.talk@.console.last().kind is Error,
{
}

/// A reset of an override sends its byte and shows the full rate at once; another
/// byte is sent as it is and shows nothing.
pub proof fn overrides_are_reset_by_their_bytes(
    before: App,
    after: App,
    action: OverrideAction,
    r: Outcome,
)
    requires
        performed(before, after, Action::Override(action), r),
        before.talk@.link is Open,
    ensures
        ({
            let (a, b) = (before.machine, after.machine);
            let (old_box, new_box) = (before.talk@.outbox, after.talk@.outbox);
            let all = action is ResetAll;
            &&& b.override_feed == (if all || action is ResetFeed { 100 } else { a.override_feed })
            &&& b.override_rapid == (if all || action is ResetRapid { 100 } else { a.override_rapid })
            &&& b.override_spindle == (if all || action is ResetPower { 100 } else { a.override_spindle })
            &&& action is ResetFeed ==> new_box == old_box.push(Out::Byte(0x90))
            &&& action is ResetRapid ==> new_box == old_box.push(Out::Byte(0x95))
            &&& action is ResetPower ==> new_box == old_box.push(Out::Byte(0x99))
            &&& all ==> new_box == old_box.push(Out::Byte(0x90)).push(Out::Byte(0x95)).push(
                Out::Byte(0x99),
            )
            &&& action matches OverrideAction::Byte(x) ==> new_box == old_box.push(Out::Byte(x))
            &&& b.jog_step_idx == a.jog_step_idx && b.status_poll_interval
                == a.status_poll_interval
        }),
{
}

/// The controller's settings are gone through in a ring, and asked for by their
/// command.
pub proof fn the_controllers_settings_are_gone_through(
    before: App,
    after: App,
    action: ListAction,
    r: Outcome,
)
    requires
        performed(before, after, Action::List(action), r),
        before.controller.grbl_settings@.len() <= usize::MAX,
    ensures
        ({
            let n = before.controller.grbl_settings@.len();
            let (s, t) = (
                before.controller.settings_list_selected,
                after.controller.settings_list_selected,
            );
            &&& action is Next && n > 0 ==> (s matches Some(i) ==> (i < n ==> t == Some(
                (if i + 1 < n { i + 1 } else { 0 }) as usize,
            )))
            &&& action is Previous && n > 0 ==> (s matches Some(i) ==> (i < n ==> t == Some(
                (if i > 0 { i - 1 } else { n - 1 }) as usize,
            )))
            &&& n == 0 && !(action is Request) ==> t == s
            &&& action is Request && before.talk@.link is Open ==> after.talk@.outbox
                == before.talk@.outbox.push(Out::Line(message::plain("$$"@)))
            &&& after.controller.grbl_settings == before.controller.grbl_settings
        }),
{
    if let Some(i) = before.controller.settings_list_selected {
        if i < before.controller.grbl_settings@.len() {
            app::steps_go_round(i, before.controller.grbl_settings@.len());
        }
    }
}

/// The text is scrolled by a line, by twenty, or to its ends, and never beyond its
/// last line by a key.
pub proof fn the_text_is_scrolled(app: App)
    ensures
        ({
            let at = app.work.gcode_scroll as int;
            let last = app.last_line();
            let to = |a: JobAction| scrolled_to(app, a);
            &&& at > 0 ==> to(JobAction::Up) == at - 1
            &&& at == 0 ==> to(JobAction::Up) == 0 && to(JobAction::PageUp) == 0
            &&& at < last ==> to(JobAction::Down) == at + 1
            &&& at >= last ==> to(JobAction::Down) == at
            &&& at > 20 ==> to(JobAction::PageUp) == at - 20
            &&& at <= 20 ==> to(JobAction::PageUp) == 0
            &&& at + 20 < last ==> to(JobAction::PageDown) == at + 20
            &&& at + 20 >= last ==> to(JobAction::PageDown) == last
            &&& to(JobAction::Top) == 0 && to(JobAction::Bottom) == last
        }),
{
}

/// The keys of a job ask for what they stand for, or change just what they name:
/// the scrolling of the text, the inversion of the image, the pane that has the
/// keyboard.
pub proof fn job_keys_ask_for_what_they_stand_for(
    before: App,
    after: App,
    action: JobAction,
    r: Outcome,
)
    requires
        performed(before, after, Action::Job(action), r),
        0 <= scrolled_to(before, action) <= usize::MAX,
    ensures
        action is Open ==> after == before && (r.request matches Some(Request::OpenFile)),
        action is Frame ==> after == before && (r.request matches Some(Request::Frame)),
        action matches JobAction::EditOffset(axis) ==> after == before && (
        r.request matches Some(Request::BeginOffsetEdit(a)) && a == axis),
        action is Invert ==> after.work.invert_image == !before.work.invert_image
            && after.work.gcode_text == before.work.gcode_text && r.request is None,
        action is FocusLayers ==> after.screen.gcode_focus is Layers && after.work == before.work,
        action is Convert ==> (r.request matches Some(Request::Convert(p)) ==> (
        before.work.svg_path matches Some(q) && p@ == q@)) && (r.request is None
            <==> before.work.svg_path is None),
        action is Save ==> (r.request matches Some(Request::Save(g)) ==> (
        before.work.gcode_text matches Some(h) && g@ == h@)) && (r.request is None
            <==> before.work.gcode_text is None),
        action is Up || action is Down || action is PageUp || action is PageDown || action is Top
            || action is Bottom ==> after.work.gcode_scroll == scrolled_to(before, action)
            && after.work.gcode_text == before.work.gcode_text && after.talk == before.talk
            && r.request is None,
{
}

/// While the shift of the job is edited, its text grows and shrinks at its end, it
/// is given up or taken as asked for, and the settings wait.
pub proof fn the_shift_is_typed(before: App, after: App, action: OffsetAction, r: Outcome)
    requires
        performed(before, after, Action::Offset(action), r),
    ensures
        before.offset matches Some(edit) ==> {
            &&& action matches OffsetAction::Type(c) ==> (after.offset matches Some(now) && now.text@
                == edit.text@.push(c) && now.axis == edit.axis)
            &&& action is Backspace && edit.text@.len() > 0 ==> (after.offset matches Some(now)
                && now.text@ == edit.text@.drop_last() && now.axis == edit.axis)
            &&& action is Backspace && edit.text@.len() == 0 ==> (after.offset matches Some(now)
                && now.text@.len() == 0)
        },
        action is Cancel ==> after.offset is None && r.request is None,
        action is Commit ==> after == before && (r.request matches Some(Request::CommitOffsetEdit)),
        after.config == before.config && after.work == before.work,
{
}

/// In the list of layers, layers are gone through in a ring, the mode of the
/// selected one is cycled, all are reset to the drawing, and an edited text grows
/// and shrinks at its end; editing and taking an override is asked for.
pub proof fn layers_are_changed_one_by_one(
    before: App,
    after: App,
    action: LayerAction,
    r: Outcome,
)
    requires
        performed(before, after, Action::Layer(action), r),
        before.panel.layer_selected < before.panel.layers@.len() <= usize::MAX,
    ensures
        ({
            let n = before.panel.layers@.len();
            let (i, j) = (before.panel.layer_selected, after.panel.layer_selected);
            let (old_buf, new_buf) = (before.panel.layer_edit_buf@, after.panel.layer_edit_buf@);
            &&& action is Next ==> j == (if i + 1 < n { i + 1 } else { 0 })
                && after.panel.layer_edit_field is None
            &&& action is Previous ==> j == (if i > 0 { i - 1 } else { n - 1 })
                && after.panel.layer_edit_field is None
            &&& !(action is Next || action is Previous) ==> j == i
            &&& action matches LayerAction::Edit(f) ==> after == before && (
            r.request matches Some(Request::BeginLayerEdit(g)) && g == f)
            &&& action is Commit ==> after == before && (r.request matches Some(Request::CommitLayerEdit))
            &&& action is Cancel ==> after.panel.layer_edit_field is None && new_buf.len() == 0
                && after.panel.layers == before.panel.layers
            &&& action is Leave ==> after.screen.gcode_focus is GCode && after.panel == before.panel
            &&& action matches LayerAction::Type(c) ==> new_buf == old_buf.push(c)
            &&& action is Backspace && old_buf.len() > 0 ==> new_buf == old_buf.drop_last()
            &&& action is CycleMode ==> layers::layers(after.panel.layers@)[i as int].mode
                == layers::layers(before.panel.layers@)[i as int].mode.following()
            &&& !(action is CycleMode || action is Reset) ==> after.panel.layers
                == before.panel.layers
            &&& after.config == before.config && after.talk == before.talk
        }),
{
    app::steps_go_round(before.panel.layer_selected, before.panel.layers@.len());
    if action is CycleMode {
        app::only_one_mode_is_cycled(
            layers::layers(before.panel.layers@),
            before.panel.layer_selected as int,
            before.panel.layer_selected as int,
        );
    }
}

/// A reset sets every layer back to what the drawing declares, names and all.
pub proof fn a_reset_sets_every_layer_back(before: App, after: App, r: Outcome, i: int)
    requires
        performed(before, after, Action::Layer(LayerAction::Reset), r),
        0 <= i < before.panel.layers@.len(),
    ensures
        ({
            let (a, b) = (before.panel.layers@[i]@, layers::layers(after.panel.layers@)[i]);
            &&& layers::layers(after.panel.layers@).len() == before.panel.layers@.len()
            &&& b.feedrate == a.svg_feedrate && b.power == a.svg_power && b.passes == a.svg_passes
            &&& b.mode is Default && b.label == a.label && b.key == a.key
        }),
        after.panel.layer_edit_field is None,
{
    assert(layers::layers(before.panel.layers@)[i] == before.panel.layers@[i]@);
}

/// On the settings tab the selection goes from field to field and stops at the
/// ends, an edited text grows and shrinks at its end, and the settings change only
/// by a switch or by their reset.
pub proof fn settings_are_gone_through(
    before: App,
    after: App,
    action: SettingsAction,
    r: Outcome,
)
    requires
        performed(before, after, Action::Settings(action), r),
        before.config.settings_selected < 15,
    ensures
        ({
            let (i, j) = (before.config.settings_selected, after.config.settings_selected);
            &&& action is Next ==> j == (if i < 14 { i + 1 } else { 14 })
            &&& action is Previous ==> j == (if i > 0 { i - 1 } else { 0 })
            &&& action is First ==> j == 0
            &&& action is Last ==> j == 14
            &&& action is Begin ==> after == before && (r.request matches Some(Request::BeginEdit))
            &&& action is Commit ==> after == before && (r.request matches Some(Request::CommitEdit))
            &&& action is Cancel ==> after.config.settings_edit_buf is None
                && after.config.settings_edit_error is None
            &&& action is Reset ==> after.config.machine_settings@ == settings::default_settings()
            &&& action is Toggle && i < 12 ==> after.config.machine_settings@
                == before.config.machine_settings@
            &&& action is Toggle && i >= 12 ==> after.config.machine_settings@.switch(i as int)
                == !before.config.machine_settings@.switch(i as int)
            &&& !(action is Toggle || action is Reset) ==> after.config.machine_settings
                == before.config.machine_settings
            &&& before.config.settings_edit_buf matches Some(b) ==> {
                &&& action matches SettingsAction::Type(c) ==> (
                after.config.settings_edit_buf matches Some(d) && d@ == b@.push(c))
                &&& action is Backspace && b@.len() > 0 ==> (
                after.config.settings_edit_buf matches Some(d) && d@ == b@.drop_last())
            }
            &&& after.work == before.work && after.ports == before.ports
        }),
{
}

/// Travel lines are shown or hidden in turn, a popup goes, and the tool path is
/// drawn from the text that there is.
pub proof fn the_preview_is_asked_for(before: App, after: App, action: Action, r: Outcome)
    requires
        performed(before, after, action, r),
    ensures
        action is ToggleTravel ==> after.preview.show_travel_lines
            == !before.preview.show_travel_lines && after.preview.has_gcode_preview
            == before.preview.has_gcode_preview && after.work == before.work,
        action is DismissError ==> after.work.conversion_error_popup is None
            && after.work.gcode_text == before.work.gcode_text && after.talk == before.talk,
        action is Render ==> (r.request matches Some(Request::Render(g)) ==> (
        before.work.gcode_text matches Some(h) && g@ == h@)) && (r.request is None
            <==> before.work.gcode_text is None),
        action is OpenHelp || action is CloseHelp ==> after == before && r.redraw,
{
}

} // verus!
