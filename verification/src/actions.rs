//! What the user can have done, and what the serial line reports.
use std::collections::VecDeque;

use vstd::prelude::*;

use crate::app::{
    App, AppMode, BaudRate, Controller, ConversionErrorPopup, ConversionStatus, FocusedPane,
    GCodeFocus, LayerPanel, Machine, Ports, Preview, Progress, Screen, Stream, Work,
};
use crate::app;
use crate::binary64::Real;
use crate::converter::ConversionFailure;
use crate::converter;
use crate::grbl::{GrblLine, JogDir, MachineState, Said, State};
use crate::grbl;
use crate::layers::SvgLayerInfo;
use crate::layers;
use crate::message::{Glyph, Message};
use crate::message;
use crate::serial::{SerialEvent, discover_ports, validate_port_path};
use crate::serial;
use crate::talk::{Conversation, LineKind, LinkState, Out, Outgoing, Talk};
use crate::text;
use crate::trace::{Extents, TracedLine, laser_bounding_box};
use crate::trace;

verus! {

// ── Streaming ─────────────────────────────────────────────────────────────────

/// `sent/total`, as in a progress message.
pub open spec fn ratio(sent: nat, total: nat) -> Seq<Glyph> {
    message::count(sent) + message::plain("/"@) + message::count(total)
}

/// `sent/total`, as in a progress message.
pub fn ratio_message(sent: usize, total: usize) -> (r: Message)
    ensures
        r@ == ratio(sent as nat, total as nat),
{
    Message::new().then_count(sent as u64).then_text("/").then_count(total as u64)
}

/// The status message during a stream.
pub open spec fn streaming_status(sent: nat, total: nat) -> Seq<Glyph> {
    message::plain("Streaming GCode: "@) + ratio(sent, total) + message::plain(" lines"@)
}

/// Note how far a stream has come.
pub fn apply_stream_progress(app: &mut App, sent: usize, total: usize)
    requires
        old(app).wf(),
    ensures
        final(app).wf(),
        *final(app) == (
            App {
                stream: Stream {
                    stream_sent: sent,
                    stream_total: total,
                    ..old(app).talking(final(app).talk).stream
                },
                ..old(app).talking(final(app).talk)
            }
        ),
        final(app).talk@ == old(app).talk@.announce(
            streaming_status(sent as nat, total as nat),
            Some(10),
        ),
{
    app.stream.stream_sent = sent;
    app.stream.stream_total = total;
    app.talk.set_status(
        Message::text("Streaming GCode: ").followed_by(
            ratio_message(sent, total),
        ).then_text(" lines"),
        Some(10),
    );
}

// ── Start ─────────────────────────────────────────────────────────────────────

/// What is said at the start, with `n` ports found: with keys on a terminal,
/// without them in a window.
pub open spec fn greeted(c: Conversation, n: nat, window: bool) -> Conversation {
    let found = message::plain("Found "@) + message::count(n);
    if window {
        (if n == 0 {
            c.inform(message::plain("No serial ports found. Click Refresh to scan."@))
        } else {
            c.inform(found + message::plain(" serial port(s)."@))
        }).inform(message::plain("Welcome to Larris – GRBL Laser Terminal."@))
    } else {
        (if n == 0 {
            c.inform(message::plain("No serial ports found. Press 'r' to refresh."@))
        } else {
            c.inform(found + message::plain(" serial port(s). Use ↑/↓ + Enter to connect."@))
        }).inform(
            message::plain("Welcome to Larris – GRBL Laser Terminal. Press '?' for help."@),
        )
    }
}

fn say_found(talk: &mut Talk, n: usize, window: bool)
    requires
        old(talk).wf(),
    ensures
        final(talk).wf(),
        final(talk).link == old(talk).link,
        final(talk)@ == greeted(old(talk)@, n as nat, window),
{
    if window {
        if n == 0 {
            talk.push_info(Message::text("No serial ports found. Click Refresh to scan."));
        } else {
            talk.push_info(
                Message::text("Found ").then_count(n as u64).then_text(" serial port(s)."),
            );
        }
        talk.push_info(Message::text("Welcome to Larris – GRBL Laser Terminal."));
    } else {
        if n == 0 {
            talk.push_info(Message::text("No serial ports found. Press 'r' to refresh."));
        } else {
            talk.push_info(
                Message::text("Found ").then_count(n as u64).then_text(
                    " serial port(s). Use ↑/↓ + Enter to connect.",
                ),
            );
        }
        talk.push_info(
            Message::text("Welcome to Larris – GRBL Laser Terminal. Press '?' for help."),
        );
    }
}

/// Take over the serial ports found at the start, given the names under `/dev`,
/// and greet the user.
pub fn greet(app: &mut App, names: &Vec<String>, window: bool)
    requires
        old(app).wf(),
    ensures
        final(app).wf(),
        *final(app) == (App {
            ports: Ports {
                port_list: final(app).ports.port_list,
                port_list_selected: if final(app).ports.port_list@.len() == 0 {
                    old(app).ports.port_list_selected
                } else {
                    Some(0)
                },
                ..old(app).ports
            },
            ..old(app).talking(final(app).talk)
        }),
        serial::sorted(text::texts(final(app).ports.port_list@)),
        text::texts(final(app).ports.port_list@).to_multiset() == serial::serial_paths(
            text::texts(names@),
        ).to_multiset(),
        final(app).talk@ == greeted(old(app).talk@, final(app).ports.port_list@.len(), window),
{
    app.ports.port_list = discover_ports(names);
    let n = app.ports.port_list.len();
    if n > 0 {
        app.ports.port_list_selected = Some(0);
    }
    say_found(&mut app.talk, n, window);
}

// ── Ports and connection ──────────────────────────────────────────────────────

/// The selection after the list has become `n` long.
pub open spec fn kept_selection(s: Option<usize>, n: nat) -> Option<usize> {
    if n == 0 {
        None
    } else if app::chosen_or_first(s) < n {
        Some(app::chosen_or_first(s))
    } else {
        Some((n - 1) as usize)
    }
}

/// Refresh the list of serial ports from the names found under `/dev`, and keep
/// the selection within it.
pub fn do_refresh_ports(app: &mut App, names: &Vec<String>)
    requires
        old(app).wf(),
    ensures
        final(app).wf(),
        *final(app) == (
            App {
                ports: Ports {
                    port_list: final(app).ports.port_list,
                    port_list_selected: kept_selection(
                        old(app).ports.port_list_selected,
                        final(app).ports.port_list@.len(),
                    ),
                    ..old(app).talking(final(app).talk).ports
                },
                ..old(app).talking(final(app).talk)
            }
        ),
        serial::sorted(text::texts(final(app).ports.port_list@)),
        text::texts(final(app).ports.port_list@).to_multiset() == serial::serial_paths(
            text::texts(names@),
        ).to_multiset(),
        final(app).talk@ == old(app).talk@.inform(
            message::plain("Port list refreshed – "@) + message::count(
                final(app).ports.port_list@.len(),
            ) + message::plain(" port(s) found."@),
        ),
{
    let ports = discover_ports(names);
    let count = ports.len();
    app.ports.port_list = ports;
    let sel: usize = match app.ports.port_list_selected {
        Some(i) => i,
        None => 0,
    };
    app.ports.port_list_selected = if count == 0 {
        None
    } else if sel < count {
        Some(sel)
    } else {
        Some(count - 1)
    };
    app.talk.push_info(
        Message::text("Port list refreshed – ").then_count(count as u64).then_text(
            " port(s) found.",
        ),
    );
}

/// What is said before a port is opened, given the complaint about its path.
pub open spec fn approached(
    c: Conversation,
    path: Seq<char>,
    baud: BaudRate,
    complaint: Option<Seq<char>>,
) -> Conversation {
    match complaint {
        Some(e) => c.complain(message::plain("Invalid port: "@) + message::plain(e)),
        None => c.inform(
            message::plain("Connecting to "@) + message::plain(path) + message::plain(" at "@)
                + message::plain(baud.title()) + message::plain(" baud…"@),
        ),
    }
}

/// Decide whether to open a port, given the verdict on its path.
pub fn connect_checked(app: &mut App, path: &str, verdict: Result<(), String>) -> (r: Option<
    BaudRate,
>)
    requires
        old(app).wf(),
    ensures
        final(app).wf(),
        *final(app) == old(app).talking(final(app).talk),
        final(app).talk@ == approached(
            old(app).talk@,
            path@,
            old(app).ports.baud_rates@[old(app).ports.selected_baud_idx as int],
            serial::complaint(verdict),
        ),
        r == (match verdict {
            Ok(_) => Some(old(app).ports.baud_rates@[old(app).ports.selected_baud_idx as int]),
            Err(_) => None,
        }),
{
    match verdict {
        Err(e) => {
            app.talk.push_error(Message::text("Invalid port: ").then_text(e.as_str()));
            None
        },
        Ok(_) => {
            let baud = app.selected_baud();
            app.talk.push_info(
                Message::text("Connecting to ").then_text(path).then_text(" at ").then_text(
                    baud.label(),
                ).then_text(" baud…"),
            );
            Some(baud)
        },
    }
}

/// How the state changes, and what comes out, when the selected port is to be
/// opened, given whether the device exists.
pub open spec fn connect_decided(
    before: App,
    after: App,
    r: Option<(String, BaudRate)>,
    path: Seq<char>,
    exists: bool,
) -> bool {
    let baud = before.ports.baud_rates@[before.ports.selected_baud_idx as int];
    let complaint = serial::port_complaint(path, exists);
    &&& after.talk@ == approached(before.talk@, path, baud, complaint)
    &&& r is Some == complaint is None
    &&& r matches Some(p) ==> p.0@ == path && p.1 == baud
}

/// How the state changes, and what comes out, when the selected port is to be
/// opened.
pub open spec fn connect_tried(before: App, after: App, r: Option<(String, BaudRate)>) -> bool {
    &&& after == before.talking(after.talk)
    &&& match before.chosen_port() {
        None => r is None && after.talk@ == before.talk@.complain(
            message::plain("No port selected."@),
        ),
        Some(path) => connect_decided(before, after, r, path, true) || connect_decided(
            before,
            after,
            r,
            path,
            false,
        ),
    }
}

/// Decide whether to open the selected port, and with which rate.
pub fn do_connect(app: &mut App) -> (r: Option<(String, BaudRate)>)
    requires
        old(app).wf(),
    ensures
        final(app).wf(),
        connect_tried(*old(app), *final(app), r),
{
    match app.selected_port() {
        None => {
            app.talk.push_error(Message::text("No port selected."));
            None
        },
        Some(path) => {
            let verdict = validate_port_path(path.as_str());
            match connect_checked(app, path.as_str(), verdict) {
                Some(baud) => Some((path, baud)),
                None => None,
            }
        },
    }
}

/// The state after an attempt to open a port succeeded.
pub open spec fn with_connection(app: App, port: Option<String>) -> App {
    App {
        screen: Screen { focused: FocusedPane::CommandInput, ..app.screen },
        ports: Ports { mode: AppMode::Connected, connected_port: port, ..app.ports },
        ..app
    }
}

/// The homing command, announced and sent.
pub open spec fn homed(c: Conversation) -> Conversation {
    c.inform(message::plain("Sending homing command ($H)…"@)).send(message::plain("$H"@))
}

fn home(app: &mut App)
    requires
        old(app).wf(),
    ensures
        final(app).wf(),
        *final(app) == old(app).talking(final(app).talk),
        final(app).talk@ == homed(old(app).talk@),
{
    app.talk.push_info(Message::text("Sending homing command ($H)…"));
    app.talk.send(Message::text("$H"));
}

/// Take note of how an attempt to open a port ended.  The machine is homed as
/// soon as there is a connection.
pub fn finish_connect(app: &mut App, path: String, outcome: Result<(), String>)
    requires
        old(app).wf(),
    ensures
        final(app).wf(),
        match outcome {
            Ok(_) => {
                &&& *final(app) == with_connection(
                    old(app).talking(final(app).talk),
                    Some(path),
                )
                &&& final(app).talk@ == homed(
                    (Conversation { link: LinkState::Open, ..old(app).talk@ }),
                )
            },
            Err(e) => {
                &&& *final(app) == old(app).talking(final(app).talk)
                &&& final(app).talk@ == old(app).talk@.complain(
                    message::plain("Failed to connect: "@) + message::plain(e@),
                )
            },
        },
{
    match outcome {
        Ok(_) => {
            app.ports.mode = AppMode::Connected;
            app.ports.connected_port = Some(path);
            app.talk.connect();
            app.screen.focused = FocusedPane::CommandInput;
            home(app);
        },
        Err(e) => {
            app.talk.push_error(Message::text("Failed to connect: ").then_text(e.as_str()));
        },
    }
}

/// The state without a connection.
pub open spec fn without_connection(app: App) -> App {
    App {
        screen: Screen { focused: FocusedPane::SerialList, ..app.screen },
        ports: Ports { mode: AppMode::Disconnected, connected_port: None, ..app.ports },
        ..app
    }
}

/// How the state changes when the connection is closed.
pub open spec fn disconnected(before: App, after: App) -> bool {
    if before.ports.mode is Disconnected {
        after == before
    } else {
        &&& after == without_connection(before.talking(after.talk))
        &&& after.talk@ == (Conversation {
            link: LinkState::Absent,
            ..before.talk@.post(Out::Disconnect)
        }).inform(
            message::plain("Disconnected from "@) + message::plain(
                match before.ports.connected_port {
                    Some(p) => p@,
                    None => seq![],
                },
            ) + message::plain("."@),
        )
    }
}

/// Close the connection, if there is one.
pub fn do_disconnect(app: &mut App)
    requires
        old(app).wf(),
    ensures
        final(app).wf(),
        disconnected(*old(app), *final(app)),
{
    if app.ports.mode == AppMode::Disconnected {
        return;
    }
    let _ = app.talk.post(Outgoing::Disconnect);
    app.talk.hang_up();
    app.ports.mode = AppMode::Disconnected;
    let port = match app.ports.connected_port.take() {
        Some(p) => p,
        None => String::new(),
    };
    app.talk.push_info(
        Message::text("Disconnected from ").then_text(port.as_str()).then_text("."),
    );
    app.screen.focused = FocusedPane::SerialList;
}

// ── Commands for the machine ──────────────────────────────────────────────────

/// Send the homing command.
pub fn do_home(app: &mut App)
    requires
        old(app).wf(),
    ensures
        final(app).wf(),
        *final(app) == old(app).talking(final(app).talk),
        final(app).talk@ == (if old(app).ports.mode is Connected {
            homed(old(app).talk@)
        } else {
            old(app).talk@.complain(message::plain("Not connected – cannot home."@))
        }),
{
    if app.ports.mode != AppMode::Connected {
        app.talk.push_error(Message::text("Not connected – cannot home."));
        return;
    }
    home(app);
}

/// Jog by the current step at the current speed.
pub fn do_jog(app: &mut App, dir: JogDir)
    requires
        old(app).wf(),
    ensures
        final(app).wf(),
        *final(app) == old(app).talking(final(app).talk),
        final(app).talk@ == (if old(app).ports.mode is Connected {
            old(app).talk@.send(
                dir.command(
                    grbl::jog_step(old(app).machine.jog_step_idx as int),
                    old(app).machine.jog_feedrate,
                ),
            )
        } else {
            old(app).talk@.complain(message::plain("Not connected – cannot jog."@))
        }),
{
    if app.ports.mode != AppMode::Connected {
        app.talk.push_error(Message::text("Not connected – cannot jog."));
        return;
    }
    let step = app.jog_step_mm();
    let cmd = dir.to_command(step, app.machine.jog_feedrate);
    app.talk.send(cmd);
}

/// Send a real-time byte: by itself, past the lines that wait to be sent.
pub fn send_realtime(app: &mut App, byte: u8)
    requires
        old(app).wf(),
    ensures
        final(app).wf(),
        *final(app) == old(app).talking(final(app).talk),
        final(app).talk@ == old(app).talk@.post(Out::Byte(byte)),
{
    if app.ports.mode != AppMode::Connected {
        return;
    }
    let _ = app.talk.post(Outgoing::Byte(byte));
}

/// Ask the machine for its status once.
pub fn do_poll_status(app: &mut App)
    requires
        old(app).wf(),
    ensures
        final(app).wf(),
        *final(app) == old(app).talking(final(app).talk),
        final(app).talk@ == (if old(app).ports.mode is Connected {
            old(app).talk@.post(Out::Byte(0x3f))
        } else {
            old(app).talk@.complain(message::plain("Not connected."@))
        }),
{
    if app.ports.mode != AppMode::Connected {
        app.talk.push_error(Message::text("Not connected."));
        return;
    }
    let _ = app.talk.post(Outgoing::Byte(0x3f));
}

/// How the state changes when a running stream is to be aborted.
pub open spec fn abort_tried(before: App, after: App) -> bool {
    &&& after == before.talking(after.talk)
    &&& after.talk@ == (if before.stream.is_streaming {
        before.talk@.post(Out::AbortStream).inform(message::plain("Aborting GCode stream…"@))
    } else {
        before.talk@.announce(message::plain("No active stream to abort."@), Some(60))
    })
}

/// Abort a running stream.
pub fn do_abort_stream(app: &mut App)
    requires
        old(app).wf(),
    ensures
        final(app).wf(),
        abort_tried(*old(app), *final(app)),
{
    if !app.stream.is_streaming {
        app.talk.set_status(Message::text("No active stream to abort."), Some(60));
        return;
    }
    let _ = app.talk.post(Outgoing::AbortStream);
    app.talk.push_info(Message::text("Aborting GCode stream…"));
}

/// Send a line as it is, and note it on the console.
pub fn send_serial_raw(app: &mut App, cmd: Message)
    requires
        old(app).wf(),
    ensures
        final(app).wf(),
        *final(app) == old(app).talking(final(app).talk),
        final(app).talk@ == old(app).talk@.send(cmd@),
{
    app.talk.send(cmd);
}

/// Send a line that the user entered, and note it on the console.
pub fn send_serial(app: &mut App, line: String)
    requires
        old(app).wf(),
    ensures
        final(app).wf(),
        *final(app) == old(app).talking(final(app).talk),
        final(app).talk@ == (if old(app).ports.mode is Connected {
            old(app).talk@.send(message::plain(line@))
        } else {
            old(app).talk@.complain(message::plain("Not connected – command not sent."@))
        }),
{
    if app.ports.mode == AppMode::Connected {
        app.talk.send(Message::text(line.as_str()));
    } else {
        app.talk.push_error(Message::text("Not connected – command not sent."));
    }
}

// ── Framing ───────────────────────────────────────────────────────────────────

/// `X… Y…`, as in a move.
pub open spec fn place(x: Real, y: Real) -> Seq<Glyph> {
    message::plain("X"@) + message::exact(x, 3) + message::plain(" Y"@) + message::exact(y, 3)
}

/// The moves round the burnt area, with the laser off: first to the near left
/// corner, then along the four sides back to it.
pub open spec fn frame_moves(feed: Real, job: Extents) -> Seq<Seq<Glyph>> {
    let (x0, y0) = job.min;
    let (x1, y1) = job.max;
    seq![
        message::plain("G90 G21"@),
        message::plain("G0 S0 F"@) + message::exact(feed, 0) + message::plain(" "@) + place(x0, y0),
        message::plain("G0 "@) + place(x1, y0),
        message::plain("G0 "@) + place(x1, y1),
        message::plain("G0 "@) + place(x0, y1),
        message::plain("G0 "@) + place(x0, y0),
    ]
}

/// What the program says and sends to frame a job.
pub open spec fn framed(c: Conversation, feed: Real, job: Extents) -> Conversation {
    let (x0, y0) = job.min;
    let (x1, y1) = job.max;
    let m = frame_moves(feed, job);
    c.inform(
        message::plain("Framing job: X "@) + message::exact(x0, 3) + message::plain("…"@)
            + message::exact(x1, 3) + message::plain(" mm, Y "@) + message::exact(y0, 3)
            + message::plain("…"@) + message::exact(y1, 3) + message::plain(" mm"@),
    ).send(m[0]).send(m[1]).send(m[2]).send(m[3]).send(m[4]).send(m[5]).announce(
        message::plain("Framing: "@) + message::number(
            message::minus(message::Amount::Exact(x1), message::Amount::Exact(x0)),
            1,
        ) + message::plain("×"@) + message::number(
            message::minus(message::Amount::Exact(y1), message::Amount::Exact(y0)),
            1,
        ) + message::plain(" mm at ("@) + message::exact(x0, 1) + message::plain(","@)
            + message::exact(y0, 1) + message::plain(")"@),
        Some(200),
    )
}

fn place_message(x: Real, y: Real) -> (r: Message)
    ensures
        r@ == place(x, y),
{
    Message::text("X").then_real(x, 3).then_text(" Y").then_real(y, 3)
}

fn frame(app: &mut App, job: Extents)
    requires
        old(app).wf(),
    ensures
        final(app).wf(),
        *final(app) == old(app).talking(final(app).talk),
        final(app).talk@ == framed(old(app).talk@, old(app).config.machine_settings.feedrate, job),
{
    let (x0, y0) = job.min;
    let (x1, y1) = job.max;
    let feed = app.config.machine_settings.feedrate;
    app.talk.push_info(
        Message::text("Framing job: X ").then_real(x0, 3).then_text("…").then_real(x1, 3).then_text(
            " mm, Y ",
        ).then_real(y0, 3).then_text("…").then_real(y1, 3).then_text(" mm"),
    );
    app.talk.send(Message::text("G90 G21"));
    app.talk.send(
        Message::text("G0 S0 F").then_real(feed, 0).then_text(" ").followed_by(
            place_message(x0, y0),
        ),
    );
    app.talk.send(Message::text("G0 ").followed_by(place_message(x1, y0)));
    app.talk.send(Message::text("G0 ").followed_by(place_message(x1, y1)));
    app.talk.send(Message::text("G0 ").followed_by(place_message(x0, y1)));
    app.talk.send(Message::text("G0 ").followed_by(place_message(x0, y0)));
    app.talk.set_status(
        Message::text("Framing: ").then_difference(x1, x0, 1).then_text("×").then_difference(
            y1,
            y0,
            1,
        ).then_text(" mm at (").then_real(x0, 1).then_text(",").then_real(y0, 1).then_text(")"),
        Some(200),
    );
}

/// What comes of a request to frame the job.
///
/// The machine takes the moves only while idle: a jog is cancelled, in any other
/// state the request is refused, and before the first status report the machine
/// is taken to be idle.
pub open spec fn frame_attempted(app: App, lines: Seq<TracedLine>) -> Conversation {
    let c = app.talk@;
    let state = match app.machine.grbl_status {
        Some(st) => st.state@,
        None => State::Idle,
    };
    if app.ports.mode is Disconnected {
        c.complain(message::plain("Not connected – cannot frame job."@)).announce(
            message::plain("Not connected."@),
            Some(80),
        )
    } else if state is Jog {
        c.post(Out::Byte(0x85)).inform(
            message::plain(
                "Jog cancelled – wait for the machine to reach Idle, then press Frame again."@,
            ),
        ).announce(message::plain("Jog cancelled – retry frame when Idle."@), Some(120))
    } else if !(state is Idle) {
        c.complain(
            message::plain("Cannot frame while machine is in "@) + message::plain(state.label())
                + message::plain(" state – wait for Idle first."@),
        ).announce(
            message::plain("Machine not Idle ("@) + message::plain(state.label())
                + message::plain(") – frame blocked."@),
            Some(120),
        )
    } else if app.work.gcode_text is None {
        c.complain(message::plain("No GCode to frame. Convert a file first."@)).announce(
            message::plain("No GCode available."@),
            Some(80),
        )
    } else if trace::burnt(lines).len() == 0 {
        c.complain(
            message::plain("No laser-on moves found in GCode – nothing to frame."@),
        ).announce(message::plain("No laser moves to frame."@), Some(80))
    } else {
        framed(c, app.config.machine_settings.feedrate, trace::extents(trace::burnt(lines)))
    }
}

fn refuse(app: &mut App, complaint: Message, status: Message, ticks: u32)
    requires
        old(app).wf(),
    ensures
        final(app).wf(),
        *final(app) == old(app).talking(final(app).talk),
        final(app).talk@ == old(app).talk@.complain(complaint@).announce(status@, Some(ticks)),
{
    app.talk.push_error(complaint);
    app.talk.set_status(status, Some(ticks));
}

/// Trace the area that the job burns with the laser off, so that its position can
/// be checked.  `lines` are the lines of the G-code text.
pub fn do_frame_job(app: &mut App, lines: &Vec<TracedLine>)
    requires
        old(app).wf(),
    ensures
        final(app).wf(),
        *final(app) == old(app).talking(final(app).talk),
        final(app).talk@ == frame_attempted(*old(app), lines@),
{
    if app.ports.mode != AppMode::Connected {
        refuse(
            app,
            Message::text("Not connected – cannot frame job."),
            Message::text("Not connected."),
            80,
        );
        return;
    }
    let mut jogging = false;
    let mut busy: Option<String> = None;
    match &app.machine.grbl_status {
        Some(st) => {
            match &st.state {
                MachineState::Idle => {},
                MachineState::Jog => {
                    jogging = true;
                },
                _ => {
                    busy = Some(st.state.label());
                },
            }
        },
        None => {},
    }
    if jogging {
        let _ = app.talk.post(Outgoing::Byte(0x85));
        app.talk.push_info(
            Message::text(
                "Jog cancelled – wait for the machine to reach Idle, then press Frame again.",
            ),
        );
        app.talk.set_status(Message::text("Jog cancelled – retry frame when Idle."), Some(120));
        return;
    }
    if let Some(label) = busy {
        refuse(
            app,
            Message::text("Cannot frame while machine is in ").then_text(label.as_str()).then_text(
                " state – wait for Idle first.",
            ),
            Message::text("Machine not Idle (").then_text(label.as_str()).then_text(
                ") – frame blocked.",
            ),
            120,
        );
        return;
    }
    if app.work.gcode_text.is_none() {
        refuse(
            app,
            Message::text("No GCode to frame. Convert a file first."),
            Message::text("No GCode available."),
            80,
        );
        return;
    }
    match laser_bounding_box(lines) {
        Some(job) => {
            frame(app, job);
        },
        None => {
            refuse(
                app,
                Message::text("No laser-on moves found in GCode – nothing to frame."),
                Message::text("No laser moves to frame."),
                80,
            );
        },
    }
}

// ── Sending a job ─────────────────────────────────────────────────────────────

/// The lines that the job of a state consists of.
pub open spec fn job_lines(app: App) -> Seq<Seq<char>> {
    match app.work.gcode_text {
        Some(g) => converter::sendable(text::lines(g@)),
        None => seq![],
    }
}

/// What is said and sent to start a job.
pub open spec fn started(c: Conversation, lines: Seq<Seq<char>>) -> Conversation {
    let d = c.inform(
        message::plain("Starting ok-gated GCode stream: "@) + message::count(lines.len())
            + message::plain(" lines. Abort to cancel."@),
    ).announce(streaming_status(0, lines.len()), Some(10));
    if c.link is Closed {
        d.complain(message::plain("Serial channel closed."@))
    } else {
        d.post(Out::Stream(lines))
    }
}

/// The state is as before but for a complaint.
pub open spec fn refused(before: App, after: App, complaint: Seq<char>) -> bool {
    &&& after == before.talking(after.talk)
    &&& after.talk@ == before.talk@.complain(message::plain(complaint))
}

/// How the state changes when the job is to be sent.
pub open spec fn send_tried(before: App, after: App) -> bool {
    let c = before.talk@;
    let lines = job_lines(before);
    if before.ports.mode is Disconnected {
        refused(before, after, "Not connected – cannot stream GCode."@)
    } else if before.stream.is_streaming {
        refused(before, after, "Already streaming – abort the current stream first."@)
    } else if before.work.gcode_text is None {
        refused(before, after, "No GCode to send. Convert an SVG first."@)
    } else if lines.len() == 0 {
        refused(before, after, "GCode is empty after filtering comments."@)
    } else {
        &&& after == (App {
            stream: Stream {
                is_streaming: c.link is Open,
                stream_sent: 0,
                stream_total: lines.len() as usize,
            },
            ..before.talking(after.talk)
        })
        &&& after.talk@ == started(c, lines)
    }
}

/// Send the G-code text to the machine, line by line as each is acknowledged.
pub fn do_send_gcode(app: &mut App)
    requires
        old(app).wf(),
    ensures
        final(app).wf(),
        send_tried(*old(app), *final(app)),
{
    if app.ports.mode != AppMode::Connected {
        app.talk.push_error(Message::text("Not connected – cannot stream GCode."));
        return;
    }
    if app.stream.is_streaming {
        app.talk.push_error(Message::text("Already streaming – abort the current stream first."));
        return;
    }
    let lines = match &app.work.gcode_text {
        Some(g) => converter::sendable_lines(g.as_str()),
        None => {
            app.talk.push_error(Message::text("No GCode to send. Convert an SVG first."));
            return;
        },
    };
    let count = lines.len();
    assert(text::texts(lines@).len() == count);
    if count == 0 {
        app.talk.push_error(Message::text("GCode is empty after filtering comments."));
        return;
    }
    app.talk.push_info(
        Message::text("Starting ok-gated GCode stream: ").then_count(count as u64).then_text(
            " lines. Abort to cancel.",
        ),
    );
    app.stream.stream_sent = 0;
    app.stream.stream_total = count;
    app.talk.set_status(
        Message::text("Streaming GCode: ").followed_by(ratio_message(0, count)).then_text(" lines"),
        Some(10),
    );
    if app.talk.post(Outgoing::Stream(lines)) {
        app.stream.is_streaming = true;
    } else {
        app.talk.push_error(Message::text("Serial channel closed."));
        app.stream.is_streaming = false;
    }
}

// ── Files ─────────────────────────────────────────────────────────────────────

/// Whether a file with this extension holds an image.
pub open spec fn image_extension(extension: Seq<char>) -> bool {
    let e = text::lower(extension);
    e == "png"@ || e == "jpg"@ || e == "jpeg"@ || e == "bmp"@ || e == "gif"@ || e == "tiff"@ || e
        == "tif"@ || e == "webp"@
}

/// Whether a file with this extension holds an image.
pub fn is_image_file(extension: &str) -> (r: bool)
    ensures
        r == image_extension(extension@),
{
    let e = text::to_lower(extension);
    text::same(e.as_str(), "png") || text::same(e.as_str(), "jpg") || text::same(
        e.as_str(),
        "jpeg",
    ) || text::same(e.as_str(), "bmp") || text::same(e.as_str(), "gif") || text::same(
        e.as_str(),
        "tiff",
    ) || text::same(e.as_str(), "tif") || text::same(e.as_str(), "webp")
}

/// What was found in a file.
#[derive(Debug)]
pub enum Source {
    /// An image, by the size of its preview, or why it could not be read.
    Image(Result<(u32, u32), String>),
    /// A drawing with its layers, unless they could not be told.
    Drawing(Option<Vec<SvgLayerInfo>>),
    /// A drawing that could not be read.
    Unreadable,
}

/// The state with what the last file left behind taken away.
pub open spec fn reset(app: App) -> App {
    App {
        screen: Screen { gcode_focus: GCodeFocus::GCode, ..app.screen },
        work: Work {
            gcode_text: None,
            gcode_scroll: 0,
            conversion_status: ConversionStatus::Idle,
            ..app.work
        },
        preview: Preview { has_preview: false, has_gcode_preview: false, ..app.preview },
        offset: None,
        ..app
    }
}

/// What is said when an image was loaded.
pub open spec fn image_loaded(
    c: Conversation,
    path: Seq<char>,
    size: Option<(u32, u32)>,
    complaint: Option<Seq<char>>,
) -> Conversation {
    let d = match complaint {
        Some(e) => c.complain(
            message::plain("Could not load image preview: "@) + message::plain(e),
        ),
        None => c,
    };
    d.inform(message::plain("Loaded image: "@) + message::plain(path)).announce(
        message::plain("Image loaded ("@) + (match size {
            Some((w, h)) => message::count(w as nat) + message::plain("×"@) + message::count(
                h as nat,
            ) + message::plain("px"@),
            None => seq![],
        }) + message::plain("). Press Convert to proceed."@),
        Some(160),
    )
}

/// What is said when a drawing with `n` layers was loaded: on a terminal the key
/// that converts it, in a window the layers or the button.
pub open spec fn drawing_loaded(
    c: Conversation,
    path: Seq<char>,
    n: nat,
    window: bool,
) -> Conversation {
    (if !window {
        c.announce(message::plain("SVG loaded. Press 'c' to convert."@), Some(120))
    } else if n > 0 {
        c.announce(
            message::plain("SVG loaded – "@) + message::count(n) + message::plain(
                " layer(s) detected."@,
            ),
            Some(160),
        )
    } else {
        c.announce(message::plain("SVG loaded. Click Convert to proceed."@), Some(120))
    }).inform(message::plain("Loaded SVG: "@) + message::plain(path))
}

fn reset_source(app: &mut App)
    requires
        old(app).wf(),
    ensures
        final(app).wf(),
        *final(app) == reset(*old(app)),
{
    app.work.gcode_text = None;
    app.work.gcode_scroll = 0;
    app.work.conversion_status = ConversionStatus::Idle;
    app.preview.has_preview = false;
    app.preview.has_gcode_preview = false;
    app.screen.gcode_focus = GCodeFocus::GCode;
    app.cancel_offset_edit();
}

fn load_image(app: &mut App, path: String, found: Result<(u32, u32), String>)
    requires
        old(app).wf(),
    ensures
        final(app).wf(),
        ({
            let size = match found {
                Ok(s) => Some(s),
                Err(_) => None,
            };
            let complaint = match found {
                Ok(_) => None,
                Err(e) => Some(e@),
            };
            &&& *final(app) == (
                App {
                    work: Work {
                        is_image_source: true,
                        image_dimensions: size,
                        svg_path: Some(path),
                        ..reset(old(app).talking(final(app).talk)).work
                    },
                    preview: Preview {
                        has_preview: found is Ok,
                        ..reset(old(app).talking(final(app).talk)).preview
                    },
                    panel: LayerPanel {
                        layers: final(app).panel.layers,
                        ..reset(old(app).talking(final(app).talk)).panel
                    },
                    ..reset(old(app).talking(final(app).talk))
                }
            )
            &&& final(app).panel.layers@.len() == 0
            &&& final(app).talk@ == image_loaded(old(app).talk@, path@, size, complaint)
        }),
{
    reset_source(app);
    app.work.is_image_source = true;
    app.panel.layers = Vec::new();
    let mut dims = Message::new();
    match found {
        Ok((w, h)) => {
            app.work.image_dimensions = Some((w, h));
            app.preview.has_preview = true;
            dims = dims.then_count(w as u64).then_text("×").then_count(h as u64).then_text("px");
            assert(dims@ == message::count(w as nat) + message::plain("×"@) + message::count(
                h as nat,
            ) + message::plain("px"@));
        },
        Err(e) => {
            app.work.image_dimensions = None;
            app.talk.push_error(
                Message::text("Could not load image preview: ").then_text(e.as_str()),
            );
        },
    }
    app.talk.push_info(Message::text("Loaded image: ").then_text(path.as_str()));
    app.work.svg_path = Some(path);
    app.talk.set_status(
        Message::text("Image loaded (").followed_by(dims).then_text(
            "). Press Convert to proceed.",
        ),
        Some(160),
    );
}

#[verifier::rlimit(40)]
fn load_drawing(
    app: &mut App,
    path: String,
    found: Option<Option<Vec<SvgLayerInfo>>>,
    window: bool,
)
    requires
        old(app).wf(),
    ensures
        final(app).wf(),
        ({
            let infos = match found {
                Some(Some(v)) => v@,
                _ => seq![],
            };
            let fresh = reset(old(app).talking(final(app).talk));
            let unedited = fresh.not_editing_layer(final(app).panel.layer_edit_buf);
            &&& found matches Some(Some(_)) ==> *final(app) == (
                App {
                    work: Work {
                        is_image_source: false,
                        image_dimensions: None,
                        svg_path: Some(path),
                        ..unedited.work
                    },
                    panel: LayerPanel {
                        layers: final(app).panel.layers,
                        layer_selected: 0,
                        ..unedited.panel
                    },
                    ..unedited
                }
            ) && final(app).panel.layer_edit_buf@.len() == 0
            &&& !(found matches Some(Some(_))) ==> *final(app) == (
                App {
                    work: Work {
                        is_image_source: false,
                        image_dimensions: None,
                        svg_path: Some(path),
                        ..fresh.work
                    },
                    panel: LayerPanel {
                        layers: final(app).panel.layers,
                        ..fresh.panel
                    },
                    ..fresh
                }
            )
            &&& layers::layers(final(app).panel.layers@) == infos.map_values(
                |info: SvgLayerInfo|
                    layers::layer_of(
                        info,
                        old(app).config.machine_settings.max_speed,
                        old(app).config.machine_settings.max_laser_power,
                    ),
            )
            &&& final(app).talk@ == drawing_loaded(old(app).talk@, path@, infos.len(), window)
        }),
{
    reset_source(app);
    app.work.is_image_source = false;
    app.work.image_dimensions = None;
    match found {
        Some(layers) => {
            app.load_layers_from_svg(layers);
        },
        None => {
            app.panel.layers = Vec::new();
        },
    }
    let n = app.panel.layers.len();
    assert(layers::layers(app.panel.layers@).len() == n);
    if !window {
        app.talk.set_status(Message::text("SVG loaded. Press 'c' to convert."), Some(120));
    } else if n > 0 {
        app.talk.set_status(
            Message::text("SVG loaded – ").then_count(n as u64).then_text(" layer(s) detected."),
            Some(160),
        );
    } else {
        app.talk.set_status(Message::text("SVG loaded. Click Convert to proceed."), Some(120));
    }
    app.talk.push_info(Message::text("Loaded SVG: ").then_text(path.as_str()));
    app.work.svg_path = Some(path);
}

/// How the state changes when a file was read: what the last one left behind
/// goes, and the new one is announced.
pub open spec fn file_loaded(
    before: App,
    after: App,
    path: String,
    source: Source,
    window: bool,
) -> bool {
    &&& after.work.svg_path == Some(path)
    &&& after.work.gcode_text is None && after.work.gcode_scroll == 0
    &&& after.work.conversion_status is Idle && !after.preview.has_gcode_preview
    &&& after.screen.gcode_focus is GCode && after.offset is None
    &&& after.work.is_image_source == (source is Image)
    &&& after == (
        App {
            work: Work {
                svg_path: after.work.svg_path,
                is_image_source: after.work.is_image_source,
                image_dimensions: after.work.image_dimensions,
                ..reset(before.talking(after.talk)).work
            },
            preview: Preview {
                has_preview: after.preview.has_preview,
                ..reset(before.talking(after.talk)).preview
            },
            panel: LayerPanel {
                layers: after.panel.layers,
                layer_selected: after.panel.layer_selected,
                layer_edit_field: after.panel.layer_edit_field,
                layer_edit_buf: after.panel.layer_edit_buf,
                layer_edit_error: after.panel.layer_edit_error,
            },
            ..reset(before.talking(after.talk))
        }
    )
    &&& match source {
        Source::Image(found) => {
            &&& after.panel.layers@.len() == 0
            &&& after.work.image_dimensions == (match found {
                Ok(s) => Some(s),
                Err(_) => None,
            })
            &&& after.preview.has_preview == (found is Ok)
            &&& after.talk@ == image_loaded(
                before.talk@,
                path@,
                after.work.image_dimensions,
                match found {
                    Ok(_) => None,
                    Err(e) => Some(e@),
                },
            )
            &&& after.panel.layer_selected == before.panel.layer_selected
            &&& after.panel.layer_edit_field == before.panel.layer_edit_field
            &&& after.panel.layer_edit_buf == before.panel.layer_edit_buf
            &&& after.panel.layer_edit_error == before.panel.layer_edit_error
        },
        _ => {
            let infos = match source {
                Source::Drawing(Some(v)) => v@,
                _ => seq![],
            };
            &&& after.work.image_dimensions is None
            &&& !after.preview.has_preview
            &&& layers::layers(after.panel.layers@) == infos.map_values(
                |info: SvgLayerInfo|
                    layers::layer_of(
                        info,
                        before.config.machine_settings.max_speed,
                        before.config.machine_settings.max_laser_power,
                    ),
            )
            &&& after.talk@ == drawing_loaded(before.talk@, path@, infos.len(), window)
            &&& source matches Source::Drawing(Some(_)) ==> after.panel.layer_selected == 0
                && after.panel.layer_edit_field is None
                && after.panel.layer_edit_buf@.len() == 0
                && after.panel.layer_edit_error is None
            &&& !(source matches Source::Drawing(Some(_))) ==> after.panel.layer_selected
                == before.panel.layer_selected && after.panel.layer_edit_field
                == before.panel.layer_edit_field && after.panel.layer_edit_buf
                == before.panel.layer_edit_buf && after.panel.layer_edit_error
                == before.panel.layer_edit_error
        },
    }
}

fn take_file(app: &mut App, path: String, source: Source, window: bool)
    requires
        old(app).wf(),
    ensures
        final(app).wf(),
        file_loaded(*old(app), *final(app), path, source, window),
{
    match source {
        Source::Image(found) => {
            load_image(app, path, found);
        },
        Source::Drawing(found) => {
            load_drawing(app, path, Some(found), window);
        },
        Source::Unreadable => {
            load_drawing(app, path, None, window);
        },
    }
}

/// Take over a file that was opened in a window.
pub fn load_file(app: &mut App, path: String, source: Source)
    requires
        old(app).wf(),
    ensures
        final(app).wf(),
        file_loaded(*old(app), *final(app), path, source, true),
{
    take_file(app, path, source, true);
}

/// Take over a file that was opened by a key.
pub fn do_open_svg(app: &mut App, path: String, source: Source)
    requires
        old(app).wf(),
    ensures
        final(app).wf(),
        file_loaded(*old(app), *final(app), path, source, false),
{
    take_file(app, path, source, false);
}

/// How the state changes, and what comes out, when the G-code text is to be saved.
pub open spec fn save_begun(before: App, after: App, r: Option<String>) -> bool {
    &&& after == before.talking(after.talk)
    &&& text::opt(r) == text::opt(before.work.gcode_text)
    &&& after.talk@ == (if before.work.gcode_text is None {
        before.talk@.complain(message::plain("No GCode to save."@)).announce(
            message::plain("No GCode to save."@),
            Some(80),
        )
    } else {
        before.talk@
    })
}

/// The G-code text to be saved; complains if there is none.
pub fn save_gcode_to(app: &mut App) -> (r: Option<String>)
    requires
        old(app).wf(),
    ensures
        final(app).wf(),
        save_begun(*old(app), *final(app), r),
{
    match &app.work.gcode_text {
        Some(g) => Some(g.clone()),
        None => {
            refuse(app, Message::text("No GCode to save."), Message::text("No GCode to save."), 80);
            None
        },
    }
}

/// Say how saving to `path` ended.
pub fn finish_save(app: &mut App, path: &str, outcome: Result<(), String>)
    requires
        old(app).wf(),
    ensures
        final(app).wf(),
        *final(app) == old(app).talking(final(app).talk),
        final(app).talk@ == (match outcome {
            Ok(_) => old(app).talk@.inform(
                message::plain("GCode saved to: "@) + message::plain(path@),
            ).announce(message::plain("Saved: "@) + message::plain(path@), Some(120)),
            Err(e) => old(app).talk@.complain(
                message::plain("Save failed: "@) + message::plain(e@),
            ).announce(message::plain("Save failed: "@) + message::plain(e@), Some(120)),
        }),
{
    match outcome {
        Ok(_) => {
            app.talk.push_info(Message::text("GCode saved to: ").then_text(path));
            app.talk.set_status(Message::text("Saved: ").then_text(path), Some(120));
        },
        Err(e) => {
            refuse(
                app,
                Message::text("Save failed: ").then_text(e.as_str()),
                Message::text("Save failed: ").then_text(e.as_str()),
                120,
            );
        },
    }
}

// ── Conversion ────────────────────────────────────────────────────────────────

/// How the state changes, and what comes out, when a conversion begins.
pub open spec fn convert_begun(before: App, after: App, r: Option<String>) -> bool {
    &&& text::opt(r) == text::opt(before.work.svg_path)
    &&& if before.work.svg_path is None {
        &&& after == before.talking(after.talk)
        &&& after.talk@ == before.talk@.complain(
            message::plain("No file loaded. Open an SVG or image first."@),
        ).announce(message::plain("No file loaded."@), Some(80))
    } else {
        after == (App {
            work: Work {
                conversion_status: ConversionStatus::Running,
                gcode_text: None,
                gcode_scroll: 0,
                ..before.work
            },
            preview: Preview {
                has_gcode_preview: false,
                has_preview: before.preview.has_preview && before.work.is_image_source,
                ..before.preview
            },
            ..before
        })
    }
}

/// Begin a conversion: the path to be converted, unless no file is loaded.  The
/// results of the last conversion go; the preview of an image stays.
pub fn do_convert(app: &mut App) -> (r: Option<String>)
    requires
        old(app).wf(),
    ensures
        final(app).wf(),
        convert_begun(*old(app), *final(app), r),
{
    let path = match &app.work.svg_path {
        Some(p) => p.clone(),
        None => {
            refuse(
                app,
                Message::text("No file loaded. Open an SVG or image first."),
                Message::text("No file loaded."),
                80,
            );
            return None;
        },
    };
    app.work.conversion_status = ConversionStatus::Running;
    app.work.gcode_text = None;
    app.work.gcode_scroll = 0;
    app.preview.has_gcode_preview = false;
    if !app.work.is_image_source {
        app.preview.has_preview = false;
    }
    Some(path)
}

/// What is said when a conversion made `n` lines.
pub open spec fn converted(c: Conversation, n: nat) -> Conversation {
    c.inform(
        message::plain("Conversion OK – "@) + message::count(n) + message::plain(
            " lines of GCode."@,
        ),
    ).announce(
        message::plain("Converted: "@) + message::count(n) + message::plain(" GCode lines."@),
        Some(120),
    )
}

/// What is said when a conversion failed.
pub open spec fn not_converted(c: Conversation, why: Seq<char>, ticks: u32) -> Conversation {
    let m = message::plain("Conversion failed: "@) + message::plain(why);
    c.complain(m).announce(m, Some(ticks))
}

fn conversion_succeeded(app: &mut App, gcode: String)
    requires
        old(app).wf(),
    ensures
        final(app).wf(),
        *final(app) == (App {
            work: Work {
                gcode_text: Some(gcode),
                gcode_scroll: 0,
                conversion_status: ConversionStatus::Okay,
                ..old(app).work
            },
            ..old(app).talking(final(app).talk)
        }),
        final(app).talk@ == converted(old(app).talk@, text::lines(gcode@).len()),
{
    let lines = text::lines_of(gcode.as_str());
    let n = lines.len();
    assert(text::texts(lines@).len() == n);
    app.talk.push_info(
        Message::text("Conversion OK – ").then_count(n as u64).then_text(" lines of GCode."),
    );
    app.work.gcode_text = Some(gcode);
    app.work.gcode_scroll = 0;
    app.work.conversion_status = ConversionStatus::Okay;
    app.talk.set_status(
        Message::text("Converted: ").then_count(n as u64).then_text(" GCode lines."),
        Some(120),
    );
}

fn conversion_failed(app: &mut App, why: &str, ticks: u32)
    requires
        old(app).wf(),
    ensures
        final(app).wf(),
        *final(app) == (App {
            work: Work {
                conversion_status: final(app).work.conversion_status,
                ..old(app).work
            },
            ..old(app).talking(final(app).talk)
        }),
        final(app).work.conversion_status@ == Progress::Failed(why@),
        final(app).talk@ == not_converted(old(app).talk@, why@, ticks),
{
    refuse(
        app,
        Message::text("Conversion failed: ").then_text(why),
        Message::text("Conversion failed: ").then_text(why),
        ticks,
    );
    app.work.conversion_status = ConversionStatus::Failed(why.to_owned());
}

/// Take note of how a conversion ended.
#[verifier::rlimit(40)]
pub fn finish_convert(app: &mut App, result: Result<String, ConversionFailure>)
    requires
        old(app).wf(),
    ensures
        final(app).wf(),
        match result {
            Ok(gcode) => {
                &&& *final(app) == (App {
                    work: Work {
                        gcode_text: Some(gcode),
                        gcode_scroll: 0,
                        conversion_status: ConversionStatus::Okay,
                        ..old(app).work
                    },
                    ..old(app).talking(final(app).talk)
                })
                &&& final(app).talk@ == converted(old(app).talk@, text::lines(gcode@).len())
            },
            Err(ConversionFailure::Refused(e)) => {
                &&& *final(app) == (App {
                    work: Work {
                        conversion_status: final(app).work.conversion_status,
                        conversion_error_popup: Some(
                            ConversionErrorPopup { title: e.title, body: e.body },
                        ),
                        ..old(app).work
                    },
                    ..old(app).talking(final(app).talk)
                })
                &&& final(app).work.conversion_status@ == Progress::Failed(e.title@)
                &&& final(app).talk@ == not_converted(old(app).talk@, e.title@, 200)
            },
            Err(ConversionFailure::Other(e)) => {
                &&& *final(app) == (App {
                    work: Work {
                        conversion_status: final(app).work.conversion_status,
                        ..old(app).work
                    },
                    ..old(app).talking(final(app).talk)
                })
                &&& final(app).work.conversion_status@ == Progress::Failed(e@)
                &&& final(app).talk@ == not_converted(old(app).talk@, e@, 120)
            },
        },
{
    match result {
        Ok(gcode) => {
            conversion_succeeded(app, gcode);
        },
        Err(ConversionFailure::Refused(e)) => {
            conversion_failed(app, e.title.as_str(), 200);
            app.show_conversion_error(e.title, e.body);
        },
        Err(ConversionFailure::Other(e)) => {
            conversion_failed(app, e.as_str(), 120);
        },
    }
}

// ── Preview ───────────────────────────────────────────────────────────────────

/// How the state changes, and what comes out, when the tool path is to be drawn.
pub open spec fn render_begun(before: App, after: App, r: Option<String>) -> bool {
    &&& after == before.talking(after.talk)
    &&& text::opt(r) == text::opt(before.work.gcode_text)
    &&& after.talk@ == (if before.work.gcode_text is None {
        before.talk@.complain(
            message::plain("No GCode to preview. Convert an SVG first."@),
        ).announce(message::plain("No GCode to preview."@), Some(80))
    } else {
        before.talk@.announce(message::plain("Rendering toolpath preview…"@), Some(20))
    })
}

/// Begin to draw the tool path: the G-code text to be drawn, unless there is
/// none.
pub fn do_render_preview(app: &mut App) -> (r: Option<String>)
    requires
        old(app).wf(),
    ensures
        final(app).wf(),
        render_begun(*old(app), *final(app), r),
{
    let gcode = match &app.work.gcode_text {
        Some(g) => g.clone(),
        None => {
            refuse(
                app,
                Message::text("No GCode to preview. Convert an SVG first."),
                Message::text("No GCode to preview."),
                80,
            );
            return None;
        },
    };
    app.talk.set_status(Message::text("Rendering toolpath preview…"), Some(20));
    Some(gcode)
}

/// Take note of how drawing the tool path ended.
pub fn finish_render(app: &mut App, outcome: Result<(), String>)
    requires
        old(app).wf(),
    ensures
        final(app).wf(),
        *final(app) == (
            App {
                preview: Preview {
                    has_gcode_preview: old(app).preview.has_gcode_preview || outcome is Ok,
                    ..old(app).talking(final(app).talk).preview
                },
                ..old(app).talking(final(app).talk)
            }
        ),
        final(app).talk@ == (match outcome {
            Ok(_) => old(app).talk@.inform(
                message::plain("Toolpath preview rendered."@),
            ).announce(message::plain("Preview ready."@), Some(100)),
            Err(e) => old(app).talk@.complain(
                message::plain("Preview render failed: "@) + message::plain(e@),
            ).announce(message::plain("Preview failed: "@) + message::plain(e@), Some(120)),
        }),
{
    match outcome {
        Ok(_) => {
            app.preview.has_gcode_preview = true;
            app.talk.push_info(Message::text("Toolpath preview rendered."));
            app.talk.set_status(Message::text("Preview ready."), Some(100));
        },
        Err(e) => {
            refuse(
                app,
                Message::text("Preview render failed: ").then_text(e.as_str()),
                Message::text("Preview failed: ").then_text(e.as_str()),
                120,
            );
        },
    }
}

// ── Events of the serial actor ────────────────────────────────────────────────

/// What is put on the console for a line from the controller.  Status reports
/// and settings are shown elsewhere.
pub open spec fn heard(c: Conversation, said: Said) -> Conversation {
    match said {
        Said::Status(_) => c,
        Said::Setting { .. } => c,
        Said::Error(code) => c.complain(grbl::error_line(code)),
        Said::Alarm(code) => c.complain(grbl::alarm_line(code)),
        _ => c.say(LineKind::Received, grbl::summary_of(said)),
    }
}

/// How the state changes on a line from the controller.
pub open spec fn line_applied(before: App, after: App, said: Said) -> bool {
    &&& after.talk@ == heard(before.talk@, said)
    &&& match said {
        Said::Status(st) => {
            &&& after.machine.grbl_status matches Some(g) && g@ == st
            &&& after == (match st.overrides {
                Some(ov) => App {
                    machine: Machine {
                        override_feed: ov.feed,
                        override_rapid: ov.rapid,
                        override_spindle: ov.spindle,
                        grbl_status: after.machine.grbl_status,
                        ..before.talking(after.talk).machine
                    },
                    ..before.talking(after.talk)
                },
                None => App {
                    machine: Machine {
                        grbl_status: after.machine.grbl_status,
                        ..before.talking(after.talk).machine
                    },
                    ..before.talking(after.talk)
                },
            })
        },
        Said::GcState(s) => {
            &&& text::opt(after.controller.gc_state) == Some(s)
            &&& after == (
                App {
                    controller: Controller {
                        gc_state: after.controller.gc_state,
                        ..before.talking(after.talk).controller
                    },
                    ..before.talking(after.talk)
                }
            )
        },
        Said::Setting { key, value } => {
            &&& app::entries(after.controller.grbl_settings@) == app::upserted(
                app::entries(before.controller.grbl_settings@),
                key,
                value,
            )
            &&& after == (
                App {
                    controller: Controller {
                        grbl_settings: after.controller.grbl_settings,
                        ..before.talking(after.talk).controller
                    },
                    ..before.talking(after.talk)
                }
            )
        },
        Said::Probe { pos, success } => {
            &&& after.controller.last_probe matches Some((p, ok)) && p@ == pos && ok == success
            &&& after == (
                App {
                    controller: Controller {
                        last_probe: after.controller.last_probe,
                        ..before.talking(after.talk).controller
                    },
                    ..before.talking(after.talk)
                }
            )
        },
        _ => after == before.talking(after.talk),
    }
}

/// Take note of a line from the controller.
#[verifier::rlimit(40)]
pub fn apply_line(app: &mut App, line: &str)
    requires
        old(app).wf(),
    ensures
        final(app).wf(),
        line_applied(*old(app), *final(app), grbl::said(line@)),
{
    let parsed = GrblLine::parse(line);
    let summary = parsed.summary();
    match parsed {
        GrblLine::Status(st) => {
            match &st.overrides {
                Some(ov) => {
                    app.machine.override_feed = ov.feed;
                    app.machine.override_rapid = ov.rapid;
                    app.machine.override_spindle = ov.spindle;
                },
                None => {},
            }
            app.machine.grbl_status = Some(st);
        },
        GrblLine::Setting { key, value } => {
            app.upsert_setting(key, value);
        },
        GrblLine::Error(code) => {
            app.talk.push_error(grbl::error_message(code));
        },
        GrblLine::Alarm(code) => {
            app.talk.push_error(grbl::alarm_message(code));
        },
        GrblLine::GcState(s) => {
            app.controller.gc_state = Some(s);
            app.talk.push_received(summary);
        },
        GrblLine::Probe { pos, success } => {
            app.controller.last_probe = Some((pos, success));
            app.talk.push_received(summary);
        },
        _ => {
            app.talk.push_received(summary);
        },
    }
}

/// The conversation after the actor has gone.
pub open spec fn hung_up(c: Conversation) -> Conversation {
    Conversation { link: LinkState::Absent, ..c }
}

/// How the state changes on an event.
pub open spec fn event_applied(before: App, after: App, event: SerialEvent) -> bool {
    let c = before.talk@;
    match event {
        SerialEvent::Line(line) => line_applied(before, after, grbl::said(line@)),
        SerialEvent::Info(m) => after == before.talking(after.talk) && after.talk@ == c.inform(
            message::plain(m@),
        ),
        SerialEvent::Error(m) => after == before.talking(after.talk) && after.talk@ == c.complain(
            message::plain(m@),
        ),
        SerialEvent::StreamProgress { sent, total } => after == (
            App {
                stream: Stream {
                    stream_sent: sent,
                    stream_total: total,
                    ..before.talking(after.talk).stream
                },
                ..before.talking(after.talk)
            }
        ) && after.talk@ == c.announce(
            streaming_status(sent as nat, total as nat),
            Some(10),
        ),
        SerialEvent::StreamDone { total } => after == (
            App {
                stream: Stream {
                    is_streaming: false,
                    stream_sent: total,
                    stream_total: total,
                },
                ..before.talking(after.talk)
            }
        ) && after.talk@ == c.inform(
            message::plain("GCode stream complete – "@) + message::count(total as nat)
                + message::plain(" lines sent."@),
        ).announce(
            message::plain("Stream done: "@) + message::count(total as nat) + message::plain(
                " lines"@,
            ),
            Some(200),
        ),
        SerialEvent::StreamAborted { sent, total, reason } => after == (
            App {
                stream: Stream {
                    is_streaming: false,
                    ..before.talking(after.talk).stream
                },
                ..before.talking(after.talk)
            }
        ) && after.talk@ == c.complain(
            message::plain("GCode stream aborted after "@) + ratio(sent as nat, total as nat)
                + message::plain(" lines: "@) + message::plain(reason@),
        ).announce(
            message::plain("Stream aborted at "@) + ratio(sent as nat, total as nat),
            Some(200),
        ),
        SerialEvent::Disconnected(reason) => after == without_connection(
            before.talking(after.talk),
        ) && after.talk@ == (match reason {
            Some(r) => hung_up(c).complain(message::plain("Disconnected: "@) + message::plain(r@)),
            None => hung_up(c).inform(message::plain("Disconnected from serial port."@)),
        }),
    }
}

fn drop_connection(app: &mut App)
    requires
        old(app).wf(),
    ensures
        final(app).wf(),
        *final(app) == without_connection(old(app).talking(final(app).talk)),
        final(app).talk@ == hung_up(old(app).talk@),
{
    app.ports.mode = AppMode::Disconnected;
    app.ports.connected_port = None;
    app.talk.hang_up();
    app.screen.focused = FocusedPane::SerialList;
}

/// Take note of an event of the serial actor; tells whether more can follow.
#[verifier::rlimit(40)]
pub fn apply_serial_event(app: &mut App, event: SerialEvent) -> (r: bool)
    requires
        old(app).wf(),
    ensures
        final(app).wf(),
        event_applied(*old(app), *final(app), event),
        r == !(event is Disconnected),
{
    match event {
        SerialEvent::StreamProgress { sent, total } => {
            apply_stream_progress(app, sent, total);
            true
        },
        SerialEvent::StreamDone { total } => {
            app.stream.is_streaming = false;
            app.stream.stream_sent = total;
            app.stream.stream_total = total;
            app.talk.push_info(
                Message::text("GCode stream complete – ").then_count(total as u64).then_text(
                    " lines sent.",
                ),
            );
            app.talk.set_status(
                Message::text("Stream done: ").then_count(total as u64).then_text(" lines"),
                Some(200),
            );
            true
        },
        SerialEvent::StreamAborted { sent, total, reason } => {
            app.stream.is_streaming = false;
            app.talk.push_error(
                Message::text("GCode stream aborted after ").followed_by(
                    ratio_message(sent, total),
                ).then_text(" lines: ").then_text(reason.as_str()),
            );
            app.talk.set_status(
                Message::text("Stream aborted at ").followed_by(ratio_message(sent, total)),
                Some(200),
            );
            true
        },
        SerialEvent::Line(line) => {
            apply_line(app, line.as_str());
            true
        },
        SerialEvent::Info(m) => {
            app.talk.push_info(Message::text(m.as_str()));
            true
        },
        SerialEvent::Error(m) => {
            app.talk.push_error(Message::text(m.as_str()));
            true
        },
        SerialEvent::Disconnected(reason) => {
            drop_connection(app);
            match reason {
                Some(r) => {
                    app.talk.push_error(Message::text("Disconnected: ").then_text(r.as_str()));
                },
                None => {
                    app.talk.push_info(Message::text("Disconnected from serial port."));
                },
            }
            false
        },
    }
}

/// How the state changes when the serial actor has ended without a word.
pub open spec fn actor_gone(before: App, after: App) -> bool {
    &&& after == without_connection(before.talking(after.talk))
    &&& after.talk@ == hung_up(before.talk@).complain(
        message::plain("Serial actor disconnected unexpectedly."@),
    )
}

/// Take note that the serial actor has ended without a word.
pub fn actor_vanished(app: &mut App)
    requires
        old(app).wf(),
    ensures
        final(app).wf(),
        actor_gone(*old(app), *final(app)),
{
    drop_connection(app);
    app.talk.push_error(Message::text("Serial actor disconnected unexpectedly."));
}

/// Whether one of the events ends the connection.
pub open spec fn ends(events: Seq<SerialEvent>) -> bool
    decreases events.len(),
{
    events.len() > 0 && (events.last() is Disconnected || ends(events.drop_last()))
}

/// The events up to the one that ends the connection, which is the last to count.
pub open spec fn heeded(events: Seq<SerialEvent>) -> Seq<SerialEvent>
    decreases events.len(),
{
    if events.len() > 0 && ends(events.drop_last()) {
        heeded(events.drop_last())
    } else {
        events
    }
}

/// How the state changes on some events, one after the other.
pub open spec fn events_applied(before: App, after: App, events: Seq<SerialEvent>) -> bool
    decreases events.len(),
{
    if events.len() == 0 {
        after == before
    } else {
        exists|between: App|
            events_applied(before, between, events.drop_last()) && #[trigger] event_applied(
                between,
                after,
                events.last(),
            )
    }
}

/// Take note of all events that are waiting, up to the end of the connection;
/// `closed` says that the serial actor is gone and no more will come.  Tells
/// whether there still is a connection.
pub fn drain_serial_events(app: &mut App, events: VecDeque<SerialEvent>, closed: bool) -> (r: bool)
    requires
        old(app).wf(),
    ensures
        final(app).wf(),
        r == (!ends(events@) && !closed),
        ends(events@) || !closed ==> events_applied(*old(app), *final(app), heeded(events@)),
        !ends(events@) && closed ==> exists|between: App|
            #[trigger] events_applied(*old(app), between, events@) && actor_gone(
                between,
                *final(app),
            ),
{
    let ghost all = events@;
    let mut waiting = events;
    let ghost mut n: int = 0;
    assert(all.take(0) =~= seq![]);
    while waiting.len() > 0
        invariant
            app.wf(),
            all == events@,
            0 <= n <= all.len(),
            waiting@ == all.skip(n),
            !ends(all.take(n)),
            events_applied(*old(app), *app, all.take(n)),
        decreases waiting@.len(),
    {
        let ghost before = *app;
        match waiting.pop_front() {
            Some(event) => {
                assert(event == all[n]);
                assert(all.take(n + 1).drop_last() =~= all.take(n));
                assert(all.take(n + 1).last() == event);
                let more = apply_serial_event(app, event);
                assert(event_applied(before, *app, all.take(n + 1).last()));
                assert(events_applied(*old(app), *app, all.take(n + 1)));
                proof {
                    n = n + 1;
                }
                if !more {
                    proof {
                        lemma_heeded(all, n);
                    }
                    return false;
                }
            },
            None => {},
        }
    }
    assert(all.take(n) =~= all);
    proof {
        lemma_heeds_all(all);
    }
    if closed {
        actor_vanished(app);
        return false;
    }
    true
}

proof fn lemma_heeds_all(events: Seq<SerialEvent>)
    requires
        !ends(events),
    ensures
        heeded(events) == events,
{
}

proof fn lemma_heeded(events: Seq<SerialEvent>, n: int)
    requires
        0 < n <= events.len(),
        events[n - 1] is Disconnected,
        !ends(events.take(n - 1)),
    ensures
        ends(events),
        heeded(events) == events.take(n),
    decreases events.len(),
{
    if n == events.len() {
        assert(events.take(n) =~= events);
        assert(events.drop_last() =~= events.take(n - 1));
    } else {
        let shorter = events.drop_last();
        assert(shorter.take(n - 1) =~= events.take(n - 1));
        assert(shorter.take(n) =~= events.take(n));
        lemma_heeded(shorter, n);
    }
}

// ── Polling ───────────────────────────────────────────────────────────────────

/// Whether status reports are asked for by themselves.
pub open spec fn polls(app: App) -> bool {
    app.ports.mode is Connected && app.machine.status_poll_interval != 0
}

/// Whether it is time to ask for the status.
pub open spec fn poll_is_due(app: App) -> bool {
    polls(app) && app.machine.status_poll_ticks + 1 >= app.machine.status_poll_interval
}

/// The ticks since the last poll, one tick later.
pub open spec fn ticks_after(app: App) -> u32 {
    if polls(app) && !poll_is_due(app) {
        (app.machine.status_poll_ticks + 1) as u32
    } else {
        0
    }
}

/// What is sent on a tick.
pub open spec fn polled(app: App) -> Conversation {
    if poll_is_due(app) {
        app.talk@.post(Out::Byte(0x3f))
    } else {
        app.talk@
    }
}

/// Count one tick, and ask for the status when it is time: with a real-time
/// byte, which does not enter the line buffer of the controller.
pub fn tick_status_poll(app: &mut App)
    requires
        old(app).wf(),
    ensures
        final(app).wf(),
        *final(app) == (App {
            machine: Machine { status_poll_ticks: ticks_after(*old(app)), ..old(app).machine },
            ..old(app).talking(final(app).talk)
        }),
        final(app).talk@ == polled(*old(app)),
{
    if app.ports.mode != AppMode::Connected || app.machine.status_poll_interval == 0 {
        app.machine.status_poll_ticks = 0;
        return;
    }
    let ticks: u32 = app.machine.status_poll_ticks + 1;
    if ticks >= app.machine.status_poll_interval {
        app.machine.status_poll_ticks = 0;
        let _ = app.talk.post(Outgoing::Byte(0x3f));
    } else {
        app.machine.status_poll_ticks = ticks;
    }
}

// ── Laws ──────────────────────────────────────────────────────────────────────

/// The state `n` ticks later, but for what was said and sent.
pub open spec fn after_ticks(app: App, n: nat) -> App
    decreases n,
{
    if n == 0 {
        app
    } else {
        let before = after_ticks(app, (n - 1) as nat);
        App {
            machine: Machine { status_poll_ticks: ticks_after(before), ..before.machine },
            ..before
        }
    }
}

/// While the status is asked for by itself, it is asked for once in every
/// interval, and the ticks since the last time stay below the interval.
pub proof fn polls_come_at_the_interval(app: App, n: nat)
    requires
        polls(app),
        app.machine.status_poll_ticks < app.machine.status_poll_interval,
    ensures
        ({
            let interval = app.machine.status_poll_interval as int;
            let later = after_ticks(app, n);
            &&& polls(later)
            &&& later.machine.status_poll_interval == interval
            &&& later.machine.status_poll_ticks == (app.machine.status_poll_ticks + n) % interval
            &&& poll_is_due(later) <==> (app.machine.status_poll_ticks + n + 1) % interval == 0
        }),
    decreases n,
{
    let interval = app.machine.status_poll_interval as int;
    let start = app.machine.status_poll_ticks as int;
    if n > 0 {
        polls_come_at_the_interval(app, (n - 1) as nat);
        lemma_next_remainder(start + n - 1, interval);
    } else {
        vstd::arithmetic::div_mod::lemma_small_mod(start as nat, interval as nat);
    }
    lemma_next_remainder(start + n, interval);
}

proof fn lemma_next_remainder(a: int, m: int)
    requires
        0 <= a,
        0 < m,
    ensures
        0 <= a % m < m,
        (a + 1) % m == (if a % m + 1 == m {
            0
        } else {
            a % m + 1
        }),
{
    vstd::arithmetic::div_mod::lemma_fundamental_div_mod(a, m);
    vstd::arithmetic::div_mod::lemma_mod_bound(a, m);
    vstd::arithmetic::mul::lemma_mul_is_commutative(m, a / m);
    if a % m + 1 == m {
        vstd::arithmetic::mul::lemma_mul_is_distributive_add_other_way(m, a / m, 1);
        vstd::arithmetic::div_mod::lemma_fundamental_div_mod_converse(a + 1, m, a / m + 1, 0);
    } else {
        vstd::arithmetic::div_mod::lemma_fundamental_div_mod_converse(
            a + 1,
            m,
            a / m,
            a % m + 1,
        );
    }
}

/// A job is framed in five rapid moves, the first of which turns the laser off:
/// from the lowest corner round the area and back.
pub proof fn framing_goes_round_with_the_laser_off(feed: Real, job: Extents)
    ensures
        ({
            let m = frame_moves(feed, job);
            let (low, high) = (job.min, job.max);
            &&& m.len() == 6
            &&& m[1].take(7) == message::plain("G0 S0 F"@)
            &&& forall|i: int| 1 <= i < 6 ==> (#[trigger] m[i]).take(3) == message::plain("G0 "@)
            &&& m[1].skip(9) == place(low.0, low.1)
            &&& m[2].skip(3) == place(high.0, low.1)
            &&& m[3].skip(3) == place(high.0, high.1)
            &&& m[4].skip(3) == place(low.0, high.1)
            &&& m[5].skip(3) == place(low.0, low.1)
        }),
{
    reveal_strlit("G0 S0 F");
    reveal_strlit("G0 ");
    reveal_strlit(" ");
    let m = frame_moves(feed, job);
    let (low, high) = (job.min, job.max);
    assert(m[1].take(7) =~= message::plain("G0 S0 F"@));
    assert(m[1].take(3) =~= message::plain("G0 "@));
    assert(m[1].skip(9) =~= place(low.0, low.1));
    assert(m[2].take(3) =~= message::plain("G0 "@) && m[2].skip(3) =~= place(high.0, low.1));
    assert(m[3].take(3) =~= message::plain("G0 "@) && m[3].skip(3) =~= place(high.0, high.1));
    assert(m[4].take(3) =~= message::plain("G0 "@) && m[4].skip(3) =~= place(low.0, high.1));
    assert(m[5].take(3) =~= message::plain("G0 "@) && m[5].skip(3) =~= place(low.0, low.1));
}

/// A point is its two coordinates in order, each with three decimals.
pub proof fn a_place_is_its_coordinates(x: Real, y: Real)
    ensures
        place(x, y) == seq![
            Glyph::Code('X' as int),
            Glyph::Number { amount: message::Amount::Exact(x), places: 3, width: 0 },
            Glyph::Code(' ' as int),
            Glyph::Code('Y' as int),
            Glyph::Number { amount: message::Amount::Exact(y), places: 3, width: 0 },
        ],
{
    reveal_strlit("X");
    reveal_strlit(" Y");
    assert(place(x, y) =~= seq![
        Glyph::Code('X' as int),
        Glyph::Number { amount: message::Amount::Exact(x), places: 3, width: 0 },
        Glyph::Code(' ' as int),
        Glyph::Code('Y' as int),
        Glyph::Number { amount: message::Amount::Exact(y), places: 3, width: 0 },
    ]);
}

/// Progress is told by the number sent, a stroke and the number in all.
pub proof fn progress_is_told_as_a_ratio(sent: nat, total: nat)
    ensures
        ratio(sent, total) == message::plain(text::decimal(sent) + seq!['/'] + text::decimal(total)),
        streaming_status(sent, total) == message::plain(
            "Streaming GCode: "@ + text::decimal(sent) + seq!['/'] + text::decimal(total)
                + " lines"@,
        ),
{
    reveal_strlit("/");
    assert("/"@ =~= seq!['/']);
    let (a, b) = (text::decimal(sent), text::decimal(total));
    message::texts_are_shown_in_order(a, seq!['/'], 0);
    message::texts_are_shown_in_order(a + seq!['/'], b, 0);
    let head = "Streaming GCode: "@;
    assert(streaming_status(sent, total) =~= message::plain(
        head + a + seq!['/'] + b + " lines"@,
    ));
}

/// The selection stays where it is as long as the list reaches there, and else
/// goes to its end; an empty list has none.
pub proof fn the_selection_stays_in_the_list(s: Option<usize>, n: nat)
    requires
        n <= usize::MAX,
    ensures
        n == 0 ==> kept_selection(s, n) is None,
        n > 0 ==> (s matches Some(i) ==> kept_selection(s, n) == Some(
            if i < n {
                i
            } else {
                (n - 1) as usize
            },
        )),
        n > 0 && s is None ==> kept_selection(s, n) == Some(0usize),
{
}

/// Homing is announced and sends its command over an open link.
pub proof fn homing_sends_its_command(c: Conversation)
    requires
        c.link is Open,
    ensures
        homed(c).outbox == c.outbox.push(Out::Line(message::plain("$H"@))),
        homed(c).console.last().kind is Sent,
        homed(c).console.last().text == message::plain("$H"@),
        homed(c).link is Open,
{
}

/// Framing a job over an open link sends just its moves, in order, behind what
/// waits already.
pub proof fn framing_sends_its_moves(c: Conversation, feed: Real, job: Extents)
    requires
        c.link is Open,
    ensures
        framed(c, feed, job).outbox == c.outbox + frame_moves(feed, job).map_values(
            |m: Seq<Glyph>| Out::Line(m),
        ),
        framed(c, feed, job).link is Open,
        framed(c, feed, job).status is Some && framed(c, feed, job).ttl == Some(200u32),
{
    let m = frame_moves(feed, job);
    let lines = m.map_values(|x: Seq<Glyph>| Out::Line(x));
    assert(lines =~= seq![
        Out::Line(m[0]),
        Out::Line(m[1]),
        Out::Line(m[2]),
        Out::Line(m[3]),
        Out::Line(m[4]),
        Out::Line(m[5]),
    ]);
    let d = c.inform(
        message::plain("Framing job: X "@) + message::exact(job.min.0, 3) + message::plain("…"@)
            + message::exact(job.max.0, 3) + message::plain(" mm, Y "@) + message::exact(
            job.min.1,
            3,
        ) + message::plain("…"@) + message::exact(job.max.1, 3) + message::plain(" mm"@),
    );
    let e = d.send(m[0]).send(m[1]).send(m[2]);
    assert(e.outbox =~= c.outbox.push(Out::Line(m[0])).push(Out::Line(m[1])).push(Out::Line(m[2])));
    let f = e.send(m[3]).send(m[4]).send(m[5]);
    assert(f.outbox =~= e.outbox.push(Out::Line(m[3])).push(Out::Line(m[4])).push(Out::Line(m[5])));
    assert(framed(c, feed, job).outbox =~= c.outbox + lines);
}

/// A job is framed only by an idle machine that is connected and has something to
/// burn, round the area that it burns and at the feed rate of the settings; a jog
/// is cancelled by its byte, and in every other case nothing is sent.
pub proof fn only_an_idle_machine_frames(app: App, lines: Seq<TracedLine>)
    ensures
        ({
            let c = app.talk@;
            let d = frame_attempted(app, lines);
            let state = app.machine.grbl_status;
            let idle = state is None || state->0.state@ is Idle;
            let jogs = state is Some && state->0.state@ is Jog;
            let connected = !(app.ports.mode is Disconnected);
            &&& connected && idle && app.work.gcode_text is Some && trace::burnt(lines).len() > 0
                ==> d == framed(
                c,
                app.config.machine_settings.feedrate,
                trace::extents(trace::burnt(lines)),
            )
            &&& connected && jogs ==> d.outbox == c.post(Out::Byte(0x85)).outbox
            &&& !connected || (!idle && !jogs) || (!jogs && (app.work.gcode_text is None
                || trace::burnt(lines).len() == 0)) ==> d.outbox == c.outbox
                && d.console.last().kind is Error && d.status is Some
        }),
{
}

/// A job is sent whole, as one stream of its lines, only over an open link and
/// while none is streamed; it starts with nothing sent.
pub proof fn a_job_is_sent_as_one_stream(before: App, after: App)
    requires
        send_tried(before, after),
    ensures
        ({
            let lines = job_lines(before);
            let ready = !(before.ports.mode is Disconnected) && !before.stream.is_streaming
                && before.work.gcode_text is Some && lines.len() > 0;
            &&& ready && before.talk@.link is Open ==> {
                &&& after.talk@.outbox == before.talk@.outbox.push(Out::Stream(lines))
                &&& after.stream.is_streaming && after.stream.stream_sent == 0
                &&& after.talk@.status == Some(streaming_status(0, lines.len()))
            }
            &&& ready && !(before.talk@.link is Open) ==> !after.stream.is_streaming
                && after.talk@.outbox == before.talk@.outbox
            &&& !ready ==> after.stream == before.stream && after.talk@.outbox
                == before.talk@.outbox && after.talk@.console.last().kind is Error
            &&& after.work == before.work && after.ports == before.ports && after.machine
                == before.machine && after.config == before.config
        }),
{
}

/// The lines of a job are those of its text that are worth sending, and there are
/// none without a text.
pub proof fn the_lines_of_a_job_are_those_of_its_text(app: App)
    ensures
        app.work.gcode_text is None ==> job_lines(app).len() == 0,
        app.work.gcode_text matches Some(g) ==> job_lines(app) == converter::sendable(
            text::lines(g@),
        ),
{
}

/// An abort is sent only while a job is streamed; else the user is told.
pub proof fn only_a_running_stream_is_aborted(before: App, after: App)
    requires
        abort_tried(before, after),
    ensures
        before.stream.is_streaming && before.talk@.link is Open ==> after.talk@.outbox
            == before.talk@.outbox.push(Out::AbortStream),
        !before.stream.is_streaming ==> after.talk@.outbox == before.talk@.outbox
            && after.talk@.status is Some && after.talk@.console == before.talk@.console,
        after.stream == before.stream && after.work == before.work,
{
}

/// The status is asked for by the question mark when it is time, and by nothing
/// else; the tick changes nothing else that is said or sent.
pub proof fn polling_asks_with_a_question_mark(app: App)
    ensures
        poll_is_due(app) && app.talk@.link is Open ==> polled(app).outbox == app.talk@.outbox.push(
            Out::Byte('?' as u8),
        ),
        !poll_is_due(app) ==> polled(app) == app.talk@,
        polled(app).console == app.talk@.console && polled(app).status == app.talk@.status,
        app.ports.mode is Disconnected || app.machine.status_poll_interval == 0 ==> !poll_is_due(
            app,
        ) && ticks_after(app) == 0,
        poll_is_due(app) ==> ticks_after(app) == 0,
{
}

/// A connection is tried with the chosen port and the selected rate; without a
/// choice, or with a path outside `/dev/`, it is not, and the user is told.
pub proof fn the_chosen_port_is_opened(before: App, after: App, r: Option<(String, BaudRate)>)
    requires
        connect_tried(before, after, r),
    ensures
        r matches Some(p) ==> {
            &&& before.chosen_port() == Some(p.0@)
            &&& p.1 == before.ports.baud_rates@[before.ports.selected_baud_idx as int]
            &&& text::starts(p.0@, "/dev/"@)
            &&& after.talk@.console.last().kind is Info
        },
        r is None ==> after.talk@.console.last().kind is Error,
        before.chosen_port() is None ==> r is None,
        before.chosen_port() matches Some(path) ==> (!text::starts(path, "/dev/"@) ==> r is None),
        after.ports == before.ports && after.talk@.outbox == before.talk@.outbox
            && after.talk@.link == before.talk@.link,
{
}

/// A connection gives the keyboard to the command line and notes its port; without
/// one the keyboard goes to the list of ports, and no port is noted.
pub proof fn a_connection_takes_the_keyboard(app: App, port: Option<String>)
    ensures
        ({
            let with = with_connection(app, port);
            let without = without_connection(app);
            &&& with.ports.mode is Connected && with.ports.connected_port == port
            &&& with.screen.focused is CommandInput
            &&& without.ports.mode is Disconnected && without.ports.connected_port is None
            &&& without.screen.focused is SerialList
            &&& with.work == app.work && without.work == app.work && with.stream == app.stream
                && without.stream == app.stream
            &&& with.ports.port_list == app.ports.port_list && without.ports.port_list
                == app.ports.port_list
        }),
{
}

/// Closing a connection tells the actor, gives the link up and says so; without a
/// connection nothing happens.
pub proof fn closing_gives_the_link_up(before: App, after: App)
    requires
        disconnected(before, after),
    ensures
        before.ports.mode is Disconnected ==> after == before,
        !(before.ports.mode is Disconnected) ==> {
            &&& after.ports.mode is Disconnected && after.ports.connected_port is None
            &&& after.talk@.link is Absent
            &&& after.screen.focused is SerialList
            &&& before.talk@.link is Open ==> after.talk@.outbox == before.talk@.outbox.push(
                Out::Disconnect,
            )
            &&& after.talk@.console.last().kind is Info
            &&& after.work == before.work && after.config == before.config
        },
{
}

/// A new file takes away what was made from the last one, and nothing of the
/// settings or the connection.
pub proof fn a_new_file_starts_afresh(app: App)
    ensures
        ({
            let r = reset(app);
            &&& r.work.gcode_text is None && r.work.gcode_scroll == 0
            &&& r.work.conversion_status is Idle && !r.preview.has_preview
                && !r.preview.has_gcode_preview
            &&& r.offset is None && r.screen.gcode_focus is GCode
            &&& r.config == app.config && r.ports == app.ports && r.talk == app.talk && r.machine
                == app.machine && r.stream == app.stream && r.panel == app.panel
            &&& r.work.svg_path == app.work.svg_path && r.work.invert_image == app.work.invert_image
                && r.preview.show_travel_lines == app.preview.show_travel_lines
        }),
{
}

/// A conversion begins with the loaded file and forgets the G-code of the last
/// one; the preview of an image stays.  Without a file nothing begins.
pub proof fn a_conversion_begins_with_the_loaded_file(before: App, after: App, r: Option<String>)
    requires
        convert_begun(before, after, r),
    ensures
        before.work.svg_path matches Some(p) ==> {
            &&& r is Some && r->0@ == p@
            &&& after.work.conversion_status is Running && after.work.gcode_text is None
            &&& after.work.gcode_scroll == 0 && !after.preview.has_gcode_preview
            &&& after.preview.has_preview == (before.preview.has_preview
                && before.work.is_image_source)
            &&& after.talk == before.talk && after.config == before.config
        },
        before.work.svg_path is None ==> {
            &&& r is None && after.work == before.work
            &&& after.talk@.console.last().kind is Error && after.talk@.status is Some
        },
{
}

/// The text is saved, or drawn, as it is; without one there is only a complaint.
pub proof fn the_text_is_handed_out_as_it_is(before: App, after: App, r: Option<String>)
    ensures
        save_begun(before, after, r) ==> {
            &&& before.work.gcode_text matches Some(g) ==> r is Some && r->0@ == g@ && after.talk@
                == before.talk@
            &&& before.work.gcode_text is None ==> r is None && after.talk@.console.last().kind
                is Error
            &&& after.work == before.work
        },
        render_begun(before, after, r) ==> {
            &&& before.work.gcode_text matches Some(g) ==> r is Some && r->0@ == g@
                && after.talk@.console == before.talk@.console && after.talk@.status is Some
            &&& before.work.gcode_text is None ==> r is None && after.talk@.console.last().kind
                is Error
            &&& after.work == before.work
        },
{
}

/// A conversion is told with the number of its lines, and a failed one with its
/// reason, on the console and in the status line.
pub proof fn conversions_are_told(c: Conversation, n: nat, why: Seq<char>, ticks: u32)
    ensures
        converted(c, n).console.last().kind is Info,
        converted(c, n).console.last().text == message::plain(
            "Conversion OK – "@ + text::decimal(n) + " lines of GCode."@,
        ),
        converted(c, n).status == Some(
            message::plain("Converted: "@ + text::decimal(n) + " GCode lines."@),
        ),
        converted(c, n).outbox == c.outbox,
        not_converted(c, why, ticks).console.last().kind is Error,
        not_converted(c, why, ticks).console.last().text == message::plain(
            "Conversion failed: "@ + why,
        ),
        not_converted(c, why, ticks).status == Some(message::plain("Conversion failed: "@ + why)),
        not_converted(c, why, ticks).ttl == Some(ticks),
        not_converted(c, why, ticks).outbox == c.outbox,
{
    let d = text::decimal(n);
    message::texts_are_shown_in_order("Conversion OK – "@, d, 0);
    message::texts_are_shown_in_order("Conversion OK – "@ + d, " lines of GCode."@, 0);
    message::texts_are_shown_in_order("Converted: "@, d, 0);
    message::texts_are_shown_in_order("Converted: "@ + d, " GCode lines."@, 0);
    message::texts_are_shown_in_order("Conversion failed: "@, why, 0);
}

/// Status reports and settings leave the console alone; errors and alarms are put
/// there as errors, and everything else as received, with its summary.
pub proof fn lines_are_heard_by_their_kind(c: Conversation, said: Said)
    ensures
        said is Status || said is Setting ==> heard(c, said) == c,
        said is Error || said is Alarm ==> heard(c, said).console.last().kind is Error
            && heard(c, said).console.last().text == grbl::summary_of(said),
        !(said is Status || said is Setting || said is Error || said is Alarm) ==> heard(
            c,
            said,
        ).console.last().kind is Received && heard(c, said).console.last().text
            == grbl::summary_of(said),
        heard(c, said).outbox == c.outbox && heard(c, said).status == c.status,
{
}

/// A line from the controller is kept where it belongs: a report as the latest
/// one with its overrides, the state of the parser, a setting under its key, the
/// result of probing; nothing else of the state changes.
pub proof fn lines_are_kept_where_they_belong(before: App, after: App, said: Said)
    requires
        line_applied(before, after, said),
    ensures
        said matches Said::Status(st) ==> {
            &&& after.machine.grbl_status is Some && after.machine.grbl_status->0@ == st
            &&& st.overrides matches Some(ov) ==> after.machine.override_feed == ov.feed
                && after.machine.override_rapid == ov.rapid && after.machine.override_spindle
                == ov.spindle
            &&& st.overrides is None ==> after.machine.override_feed
                == before.machine.override_feed && after.machine.override_rapid
                == before.machine.override_rapid && after.machine.override_spindle
                == before.machine.override_spindle
        },
        !(said is Status) ==> after.machine == before.machine,
        said matches Said::GcState(s) ==> after.controller.gc_state is Some
            && after.controller.gc_state->0@ == s,
        !(said is GcState) ==> after.controller.gc_state == before.controller.gc_state,
        said matches Said::Probe { pos, success } ==> (after.controller.last_probe matches Some(
            (p, well),
        ) && p@ == pos && well == success),
        !(said is Probe) ==> after.controller.last_probe == before.controller.last_probe,
        said matches Said::Setting { key, value } ==> app::entries(
            after.controller.grbl_settings@,
        ).contains((key, value)),
        !(said is Setting) ==> after.controller.grbl_settings == before.controller.grbl_settings,
        after.work == before.work && after.ports == before.ports && after.stream == before.stream
            && after.config == before.config && after.screen == before.screen,
{
    if let Said::Setting { key, value } = said {
        app::noted_setting_is_found(app::entries(before.controller.grbl_settings@), key, value);
    }
}

/// An event is taken note of by what it says: progress is counted, an end stops
/// the stream, and a disconnection ends the connection and gives up the link.
pub proof fn events_are_taken_note_of(before: App, after: App, event: SerialEvent)
    requires
        event_applied(before, after, event),
    ensures
        event matches SerialEvent::StreamProgress { sent, total } ==> after.stream.stream_sent
            == sent && after.stream.stream_total == total && after.stream.is_streaming
            == before.stream.is_streaming && after.talk@.console == before.talk@.console,
        event matches SerialEvent::StreamDone { total } ==> !after.stream.is_streaming
            && after.stream.stream_sent == total && after.stream.stream_total == total
            && after.talk@.console.last().kind is Info,
        event matches SerialEvent::StreamAborted { sent, total, reason }
            ==> !after.stream.is_streaming && after.stream.stream_sent == before.stream.stream_sent
            && after.talk@.console.last().kind is Error,
        event matches SerialEvent::Disconnected(reason) ==> {
            &&& after.ports.mode is Disconnected && after.ports.connected_port is None
            &&& after.talk@.link is Absent
            &&& after.talk@.console.last().kind is Error == reason is Some
        },
        !(event is Disconnected) ==> after.ports == before.ports && after.talk@.link
            == before.talk@.link,
        event matches SerialEvent::Info(m) ==> after.talk@.console.last().kind is Info
            && after.talk@.console.last().text == message::plain(m@) && after.stream
            == before.stream,
        event matches SerialEvent::Error(m) ==> after.talk@.console.last().kind is Error
            && after.talk@.console.last().text == message::plain(m@) && after.stream
            == before.stream,
        event is Line ==> after.stream == before.stream,
        after.talk@.outbox == before.talk@.outbox,
{
}

/// An actor that ended without a word is a lost connection, told as an error.
pub proof fn a_vanished_actor_is_a_lost_connection(before: App, after: App)
    requires
        actor_gone(before, after),
    ensures
        after.ports.mode is Disconnected && after.talk@.link is Absent,
        after.talk@.console.last().kind is Error,
        after.talk@.outbox == before.talk@.outbox && after.work == before.work,
        hung_up(before.talk@).link is Absent && hung_up(before.talk@).console
            == before.talk@.console,
{
}

/// Events end the connection if one of them is a disconnection, and count up to
/// the first one that is.
pub proof fn events_count_up_to_the_disconnection(events: Seq<SerialEvent>, i: int)
    requires
        0 <= i < events.len(),
        events[i] is Disconnected,
        forall|k: int| 0 <= k < i ==> !((#[trigger] events[k]) is Disconnected),
    ensures
        ends(events),
        heeded(events) == events.take(i + 1),
{
    lemma_no_end(events.take(i));
    lemma_heeded(events, i + 1);
}

/// Without a disconnection all events count.
pub proof fn without_a_disconnection_all_events_count(events: Seq<SerialEvent>)
    requires
        forall|k: int| 0 <= k < events.len() ==> !((#[trigger] events[k]) is Disconnected),
    ensures
        !ends(events),
        heeded(events) == events,
{
    lemma_no_end(events);
}

proof fn lemma_no_end(events: Seq<SerialEvent>)
    requires
        forall|k: int| 0 <= k < events.len() ==> !((#[trigger] events[k]) is Disconnected),
    ensures
        !ends(events),
    decreases events.len(),
{
    if events.len() > 0 {
        let w = events.drop_last();
        assert forall|k: int| 0 <= k < w.len() implies !((#[trigger] w[k]) is Disconnected) by {
            assert(w[k] == events[k]);
        }
        assert(events[events.len() - 1] == events.last());
        lemma_no_end(w);
    }
}

/// The user is greeted in two lines, the first of which tells how many ports were
/// found, or that there are none; nothing is sent.
pub proof fn the_greeting_counts_the_ports(c: Conversation, n: nat, window: bool)
    requires
        c.console.len() < 999,
    ensures
        ({
            let after = greeted(c, n, window);
            let line = after.console[c.console.len() as int].text;
            &&& after.console.len() == c.console.len() + 2
            &&& after.console[c.console.len() as int].kind is Info && after.console.last().kind is Info
            &&& n > 0 ==> line.take(("Found "@ + text::decimal(n)).len() as int) == message::plain(
                "Found "@ + text::decimal(n),
            )
            &&& after.outbox == c.outbox
        }),
{
    let after = greeted(c, n, window);
    let line = after.console[c.console.len() as int].text;
    let head = "Found "@ + text::decimal(n);
    message::texts_are_shown_in_order("Found "@, text::decimal(n), 0);
    if n > 0 {
        assert(line.take(head.len() as int) =~= message::plain(head));
    }
}

/// A file is told to hold an image by its extension in either case; a drawing is
/// not.
pub proof fn images_are_told_by_their_extension(extension: Seq<char>)
    ensures
        image_extension(extension) == image_extension(text::lower(extension)),
        image_extension("png"@) && image_extension("jpg"@) && image_extension("jpeg"@),
        image_extension("bmp"@) && image_extension("gif"@) && image_extension("webp"@),
        image_extension("tiff"@) && image_extension("tif"@),
        extension.len() < 3 || extension.len() > 4 ==> !image_extension(extension),
        !image_extension("svg"@),
{
    assert(text::lower(text::lower(extension)) =~= text::lower(extension)) by {
        assert forall|i: int| 0 <= i < extension.len() implies text::lower(
            text::lower(extension),
        )[i] == text::lower(extension)[i] by {
            text::only_letters_are_folded(extension[i]);
        }
    }
    reveal_strlit("png");
    reveal_strlit("jpg");
    reveal_strlit("jpeg");
    reveal_strlit("bmp");
    reveal_strlit("gif");
    reveal_strlit("tiff");
    reveal_strlit("tif");
    reveal_strlit("webp");
    reveal_strlit("svg");
    assert(text::lower("png"@) =~= "png"@);
    assert(text::lower("jpg"@) =~= "jpg"@);
    assert(text::lower("jpeg"@) =~= "jpeg"@);
    assert(text::lower("bmp"@) =~= "bmp"@);
    assert(text::lower("gif"@) =~= "gif"@);
    assert(text::lower("tiff"@) =~= "tiff"@);
    assert(text::lower("tif"@) =~= "tif"@);
    assert(text::lower("webp"@) =~= "webp"@);
    assert(text::lower("svg"@)[0] == 's');
    assert("png"@[0] == 'p' && "jpg"@[0] == 'j' && "bmp"@[0] == 'b' && "gif"@[0] == 'g' && "tif"@[0]
        == 't');
    assert("jpeg"@.len() == 4 && "tiff"@.len() == 4 && "webp"@.len() == 4);
}

/// A file that was loaded is the one that was chosen; nothing of an earlier job is
/// left, and the machine, the ports and the settings stay as they were.
pub proof fn the_chosen_file_is_loaded(
    before: App,
    after: App,
    path: String,
    source: Source,
    window: bool,
)
    requires
        file_loaded(before, after, path, source, window),
    ensures
        after.work.svg_path == Some(path),
        after.work.gcode_text is None,
        after.work.is_image_source <==> source is Image,
        source matches Source::Image(Ok(size)) ==> after.work.image_dimensions == Some(size)
            && after.preview.has_preview,
        !(source is Image) ==> after.work.image_dimensions is None && !after.preview.has_preview,
        source is Image || source is Unreadable ==> after.panel.layers@.len() == 0,
        source matches Source::Drawing(Some(v)) ==> after.panel.layers@.len() == v@.len()
            && after.panel.layer_selected == 0,
        after.talk@.outbox == before.talk@.outbox,
        after.ports == before.ports,
        after.machine == before.machine,
        after.config == before.config,
{
    let n = layers::layers(after.panel.layers@);
    assert(n.len() == after.panel.layers@.len());
}

/// What is said when a file was loaded: the file by its path on the console, with
/// an error before it where its preview could not be read, and the number of its
/// layers or the size of the image as the status.
pub proof fn loading_is_told(
    c: Conversation,
    path: Seq<char>,
    size: Option<(u32, u32)>,
    complaint: Option<Seq<char>>,
    n: nat,
    window: bool,
)
    ensures
        ({
            let d = image_loaded(c, path, size, complaint);
            &&& d.status is Some && d.ttl == Some(160u32) && d.outbox == c.outbox
            &&& d.link == c.link
        }),
        ({
            let d = drawing_loaded(c, path, n, window);
            &&& d.status is Some && d.outbox == c.outbox && d.link == c.link
            &&& window && n > 0 ==> d.ttl == Some(160u32)
            &&& !window || n == 0 ==> d.ttl == Some(120u32)
        }),
{
}

/// Events are applied one after the other.
pub proof fn events_are_applied_in_turn(
    before: App,
    between: App,
    after: App,
    events: Seq<SerialEvent>,
    event: SerialEvent,
)
    ensures
        events_applied(before, after, seq![]) <==> after == before,
        events_applied(before, between, events) && event_applied(between, after, event)
            ==> events_applied(before, after, events.push(event)),
{
    assert(events.push(event).drop_last() =~= events);
    assert(events.push(event).last() == event);
}

} // verus!
