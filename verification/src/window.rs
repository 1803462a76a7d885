//! The window: the messages of its widgets, and what the widgets show.
use vstd::prelude::*;

use crate::actions::{do_convert, do_poll_status, save_gcode_to, tick_status_poll};
use crate::actions;
use crate::app::{
    ActiveTab, App, AppMode, Config, ConversionStatus, LayerPanel, Machine, Ports, Preview, Progress,
    Work,
};
use crate::app;
use crate::binary64::Real;
use crate::events::{Outcome, Request, perform};
use crate::events;
use crate::grbl::{GrblStatus, JogDir};
use crate::grbl;
use crate::keys::{Action, ControlAction, InputAction, JobAction, PortAction};
use crate::layers::Layer;
use crate::layers;
use crate::message::{Glyph, Message};
use crate::message;
use crate::settings::MachineSettings;
use crate::settings;
use crate::talk::{ConsoleLine, Conversation, Entry, LineKind, Out};
use crate::text;

verus! {

// ── Messages ──────────────────────────────────────────────────────────────────

/// What the widgets of the window report.
#[derive(Debug)]
pub enum AppMsg {
    Tick,
    TabSwitched(u32),
    PortSelected(u32),
    BaudSelected(u32),
    Connect,
    Disconnect,
    RefreshPorts,
    Home,
    CommandSubmit,
    OpenFile,
    Convert,
    SendGCode,
    AbortStream,
    FrameJob,
    SaveGCode,
    ToggleTravelLines(bool),
    ToggleInvertImage(bool),
    LayerSelected(u32),
    JogMove(JogDir),
    JogStepLarger,
    JogStepSmaller,
    PollStatus,
    SendRealtime(u8),
    SendRaw(String),
    RenderPreview,
    /// A field was changed; the number is what reading the trimmed text gave.
    SettingChanged { idx: usize, value: String, number: Result<Real, String> },
    SettingToggleBool(usize),
    DismissError,
}

/// The tab at a place of the notebook.
pub open spec fn tab_at(place: u32) -> ActiveTab {
    match place {
        1 => ActiveTab::Control,
        2 => ActiveTab::GCode,
        3 => ActiveTab::Preview,
        4 => ActiveTab::Settings,
        _ => ActiveTab::Connect,
    }
}

fn tab_of(place: u32) -> (r: ActiveTab)
    ensures
        r == tab_at(place),
{
    if place == 1 {
        ActiveTab::Control
    } else if place == 2 {
        ActiveTab::GCode
    } else if place == 3 {
        ActiveTab::Preview
    } else if place == 4 {
        ActiveTab::Settings
    } else {
        ActiveTab::Connect
    }
}

/// Each tab is shown by the page at its place.
pub proof fn pages_are_in_the_order_of_the_tabs(tab: ActiveTab)
    ensures
        tab_at(tab.place() as u32) == tab,
{
}

/// The messages that ask for the same as a key does.
pub open spec fn as_action(msg: AppMsg) -> Option<Action> {
    match msg {
        AppMsg::TabSwitched(p) => Some(Action::Show(tab_at(p))),
        AppMsg::Connect => Some(Action::Port(PortAction::Connect)),
        AppMsg::Disconnect => Some(Action::Port(PortAction::Disconnect)),
        AppMsg::RefreshPorts => Some(Action::Port(PortAction::Refresh)),
        AppMsg::Home => Some(Action::Control(ControlAction::Home)),
        AppMsg::CommandSubmit => Some(Action::Input(InputAction::Submit)),
        AppMsg::OpenFile => Some(Action::Job(JobAction::Open)),
        AppMsg::SendGCode => Some(Action::Job(JobAction::Send)),
        AppMsg::AbortStream => Some(Action::Job(JobAction::Abort)),
        AppMsg::FrameJob => Some(Action::Job(JobAction::Frame)),
        AppMsg::JogMove(dir) => Some(Action::Control(ControlAction::Jog(dir))),
        AppMsg::JogStepLarger => Some(Action::Control(ControlAction::LargerStep)),
        AppMsg::JogStepSmaller => Some(Action::Control(ControlAction::SmallerStep)),
        AppMsg::SendRealtime(b) => Some(Action::Control(ControlAction::Byte(b))),
        AppMsg::RenderPreview => Some(Action::Render),
        AppMsg::DismissError => Some(Action::DismissError),
        _ => None,
    }
}

fn action_of(msg: &AppMsg) -> (r: Option<Action>)
    ensures
        r == as_action(*msg),
{
    match msg {
        AppMsg::TabSwitched(p) => Some(Action::Show(tab_of(*p))),
        AppMsg::Connect => Some(Action::Port(PortAction::Connect)),
        AppMsg::Disconnect => Some(Action::Port(PortAction::Disconnect)),
        AppMsg::RefreshPorts => Some(Action::Port(PortAction::Refresh)),
        AppMsg::Home => Some(Action::Control(ControlAction::Home)),
        AppMsg::CommandSubmit => Some(Action::Input(InputAction::Submit)),
        AppMsg::OpenFile => Some(Action::Job(JobAction::Open)),
        AppMsg::SendGCode => Some(Action::Job(JobAction::Send)),
        AppMsg::AbortStream => Some(Action::Job(JobAction::Abort)),
        AppMsg::FrameJob => Some(Action::Job(JobAction::Frame)),
        AppMsg::JogMove(dir) => Some(Action::Control(ControlAction::Jog(*dir))),
        AppMsg::JogStepLarger => Some(Action::Control(ControlAction::LargerStep)),
        AppMsg::JogStepSmaller => Some(Action::Control(ControlAction::SmallerStep)),
        AppMsg::SendRealtime(b) => Some(Action::Control(ControlAction::Byte(*b))),
        AppMsg::RenderPreview => Some(Action::Render),
        AppMsg::DismissError => Some(Action::DismissError),
        _ => None,
    }
}

/// How the state changes on a message that no key stands for and that asks for
/// nothing.
pub open spec fn message_done(before: App, after: App, msg: AppMsg) -> bool {
    match msg {
        AppMsg::Tick => {
            &&& after == (App {
                machine: Machine {
                    status_poll_ticks: after.machine.status_poll_ticks,
                    ..before.machine
                },
                ..before.talking(after.talk)
            })
            &&& after.talk@ == actions::polled(before).ticked()
            &&& after.machine.status_poll_ticks == actions::ticks_after(before)
        },
        AppMsg::PortSelected(i) => after == events::with_port(before, Some(i as usize)),
        AppMsg::BaudSelected(i) => after == (App {
            ports: Ports { selected_baud_idx: i as usize, ..before.ports },
            ..before
        }),
        AppMsg::ToggleTravelLines(v) => after == (App {
            preview: Preview { show_travel_lines: v, ..before.preview },
            ..before
        }),
        AppMsg::ToggleInvertImage(v) => after == (App {
            work: Work { invert_image: v, ..before.work },
            ..before
        }),
        AppMsg::LayerSelected(i) => after == (App {
            panel: LayerPanel { layer_selected: i as usize, ..before.panel },
            ..before
        }),
        AppMsg::PollStatus => after == before.talking(after.talk) && after.talk@ == (
        if before.ports.mode is Connected {
            before.talk@.post(Out::Byte(0x3f))
        } else {
            before.talk@.complain(message::plain("Not connected."@))
        }),
        AppMsg::SendRaw(s) => after == before.talking(after.talk) && after.talk@
            == before.talk@.send(message::plain(s@)),
        AppMsg::SettingChanged { idx, value, number } => {
            &&& after == (App {
                config: Config {
                    machine_settings: after.config.machine_settings,
                    ..before.config
                },
                ..before
            })
            &&& after.config.machine_settings@ == settings::entered(
                before.config.machine_settings@,
                idx as int,
                value@,
                settings::reading(number),
            ).0
        },
        AppMsg::SettingToggleBool(idx) => {
            let chosen = events::with_field(before, idx);
            &&& after == (App {
                config: Config {
                    machine_settings: after.config.machine_settings,
                    ..chosen.config
                },
                ..before
            })
            &&& after.config.machine_settings@ == (if settings::FIRST_SWITCH <= idx
                < settings::FIELD_COUNT {
                before.config.machine_settings@.with_switch(idx as int, !chosen.switch_is_on())
            } else {
                before.config.machine_settings@
            })
        },
        _ => after == before,
    }
}

/// How the state changes, and what comes out, on a message that no key stands
/// for.
pub open spec fn asked(before: App, after: App, msg: AppMsg, r: Option<Request>) -> bool {
    match msg {
        AppMsg::Convert => {
            &&& r is None || r->0 is Convert
            &&& actions::convert_begun(
                before,
                after,
                match r {
                    Some(Request::Convert(path)) => Some(path),
                    _ => None,
                },
            )
        },
        AppMsg::SaveGCode => {
            &&& r is None || r->0 is Save
            &&& actions::save_begun(
                before,
                after,
                match r {
                    Some(Request::Save(gcode)) => Some(gcode),
                    _ => None,
                },
            )
        },
        _ => r is None && message_done(before, after, msg),
    }
}

/// The messages that the widgets can send in a state: a selected row has a
/// number, and a selected baud rate is one of those offered.
pub open spec fn possible(app: App, msg: AppMsg) -> bool {
    match msg {
        AppMsg::PortSelected(i) => i < usize::MAX,
        AppMsg::LayerSelected(i) => i < usize::MAX,
        AppMsg::BaudSelected(i) => i < app.ports.baud_rates@.len(),
        _ => true,
    }
}

fn tick(app: &mut App)
    requires
        old(app).wf(),
    ensures
        final(app).wf(),
        message_done(*old(app), *final(app), AppMsg::Tick),
{
    tick_status_poll(app);
    app.tick_status();
}

fn toggle_field(app: &mut App, idx: usize)
    requires
        old(app).wf(),
    ensures
        final(app).wf(),
        message_done(*old(app), *final(app), AppMsg::SettingToggleBool(idx)),
{
    app.config.settings_selected = idx;
    app.settings_toggle_bool();
}

/// Handle a message of the widgets; what is asked for comes out.
#[verifier::rlimit(40)]
pub fn handle_message(app: &mut App, msg: AppMsg) -> (r: Option<Request>)
    requires
        old(app).wf(),
        possible(*old(app), msg),
    ensures
        final(app).wf(),
        match as_action(msg) {
            Some(action) => exists|redraw: bool|
                #![trigger events::performed(
                    *old(app),
                    *final(app),
                    action,
                    Outcome { redraw, request: r },
                )]
                events::performed(
                    *old(app),
                    *final(app),
                    action,
                    Outcome { redraw, request: r },
                ),
            None => asked(*old(app), *final(app), msg, r),
        },
{
    if let Some(action) = action_of(&msg) {
        let outcome = perform(app, action);
        assert(outcome == (Outcome { redraw: outcome.redraw, request: outcome.request }));
        return outcome.request;
    }
    match msg {
        AppMsg::Convert => {
            return match do_convert(app) {
                Some(path) => Some(Request::Convert(path)),
                None => None,
            };
        },
        AppMsg::SaveGCode => {
            return match save_gcode_to(app) {
                Some(gcode) => Some(Request::Save(gcode)),
                None => None,
            };
        },
        AppMsg::Tick => {
            tick(app);
        },
        AppMsg::PortSelected(i) => {
            app.ports.port_list_selected = Some(i as usize);
        },
        AppMsg::BaudSelected(i) => {
            app.ports.selected_baud_idx = i as usize;
        },
        AppMsg::ToggleTravelLines(v) => {
            app.preview.show_travel_lines = v;
        },
        AppMsg::ToggleInvertImage(v) => {
            app.work.invert_image = v;
        },
        AppMsg::LayerSelected(i) => {
            app.panel.layer_selected = i as usize;
        },
        AppMsg::PollStatus => {
            do_poll_status(app);
        },
        AppMsg::SendRaw(s) => {
            actions::send_serial_raw(app, Message::text(s.as_str()));
        },
        AppMsg::SettingChanged { idx, value, number } => {
            let _ = app.config.machine_settings.set_field(idx, value.as_str(), number);
        },
        AppMsg::SettingToggleBool(idx) => {
            toggle_field(app, idx);
        },
        _ => {},
    }
    None
}

// ── What the widgets show ─────────────────────────────────────────────────────

/// How much of the state the widgets show already.
#[derive(Debug, Clone, Copy, PartialEq, Eq, Structural)]
pub struct Synced {
    /// Lines of the console.
    pub console: usize,
    /// Whether the G-code text is shown.
    pub gcode: bool,
    /// Entries of the lists.
    pub ports: usize,
    pub layers: usize,
    pub settings: usize,
}

/// The buttons that can be pressed.
#[derive(Debug, Clone, Copy, PartialEq, Eq, Structural)]
pub struct Sensitive {
    pub connect: bool,
    pub disconnect: bool,
    pub convert: bool,
    pub send: bool,
    pub abort: bool,
    pub frame: bool,
    pub save: bool,
}

/// Which buttons can be pressed in a state.
pub open spec fn pressable(app: App) -> Sensitive {
    let connected = app.ports.mode is Connected;
    let has_gcode = app.work.gcode_text is Some;
    Sensitive {
        connect: !connected,
        disconnect: connected,
        convert: app.work.svg_path is Some,
        send: has_gcode && connected && !app.stream.is_streaming,
        abort: app.stream.is_streaming,
        frame: has_gcode && connected,
        save: has_gcode,
    }
}

/// Which buttons can be pressed.
pub fn sensitivities(app: &App) -> (r: Sensitive)
    ensures
        r == pressable(*app),
{
    let connected = app.ports.mode == AppMode::Connected;
    let has_gcode = app.work.gcode_text.is_some();
    Sensitive {
        connect: !connected,
        disconnect: connected,
        convert: app.work.svg_path.is_some(),
        send: has_gcode && connected && !app.stream.is_streaming,
        abort: app.stream.is_streaming,
        frame: has_gcode && connected,
        save: has_gcode,
    }
}

/// A job can be sent or aborted, not both; what can be sent can be framed and
/// saved.
pub proof fn buttons_exclude_each_other(app: App)
    ensures
        !(pressable(app).send && pressable(app).abort),
        pressable(app).connect != pressable(app).disconnect,
        pressable(app).send ==> pressable(app).frame && pressable(app).save,
{
}

/// The text of the status bar.
pub fn status_text(app: &App) -> (r: Message)
    ensures
        r@ == (match app.talk@.status {
            Some(m) => m,
            None => message::plain("Ready"@),
        }),
{
    match &app.talk.status_message {
        Some(m) => m.clone(),
        None => Message::text("Ready"),
    }
}

/// A line of the console, with a mark for its kind.
pub open spec fn console_text(line: Entry) -> Seq<Glyph> {
    message::plain(
        match line.kind {
            LineKind::Sent => "→ "@,
            LineKind::Received => "← "@,
            LineKind::Info => "  "@,
            LineKind::Error => "! "@,
        },
    ) + line.text + message::plain("\n"@)
}

fn console_message(line: &ConsoleLine) -> (r: Message)
    ensures
        r@ == console_text(line@),
{
    let mark = match line.kind {
        LineKind::Sent => "→ ",
        LineKind::Received => "← ",
        LineKind::Info => "  ",
        LineKind::Error => "! ",
    };
    Message::text(mark).followed_by(line.text.clone()).then_text("\n")
}

/// The lines that the console does not show yet.
pub open spec fn unseen(c: Conversation, shown: nat) -> Seq<Seq<Glyph>> {
    if c.console.len() > shown {
        c.console.skip(shown as int).map_values(|l: Entry| console_text(l))
    } else {
        seq![]
    }
}

/// The messages of a list, as glyphs.
pub open spec fn texts(v: Seq<Message>) -> Seq<Seq<Glyph>> {
    v.map_values(|m: Message| m@)
}

/// The lines that the console does not show yet.
pub fn new_lines(app: &App, shown: usize) -> (r: Vec<Message>)
    ensures
        texts(r@) == unseen(app.talk@, shown as nat),
{
    let mut out: Vec<Message> = Vec::new();
    let n = app.talk.console_lines.len();
    assert(app.talk@.console.len() == n);
    let ghost all = unseen(app.talk@, shown as nat);
    let mut i: usize = shown;
    assert(texts(out@) =~= all.take(0));
    while i < n
        invariant
            n == app.talk.console_lines@.len(),
            app.talk@.console.len() == n,
            all == unseen(app.talk@, shown as nat),
            shown <= i,
            shown < n ==> i <= n && texts(out@) == all.take(i - shown),
            shown >= n ==> out@.len() == 0,
        decreases n - i,
    {
        let m = console_message(&app.talk.console_lines[i]);
        let ghost before = out@;
        let ghost line = m@;
        assert(app.talk@.console[i as int] == app.talk.console_lines@[i as int]@);
        out.push(m);
        assert(texts(out@) =~= texts(before).push(line));
        assert(all[i - shown] == line);
        assert(texts(out@) =~= all.take(i + 1 - shown));
        i = i + 1;
    }
    assert(shown < n ==> all.take(all.len() as int) == all);
    assert(shown >= n ==> texts(out@) =~= all);
    out
}

/// How far a conversion has come.
pub open spec fn conversion_text(app: App) -> Seq<Glyph> {
    match app.work.conversion_status@ {
        Progress::Idle => message::plain("—"@),
        Progress::Running => message::plain("⏳ Converting…"@),
        Progress::Okay => message::plain("✓ "@) + message::count(app.line_count())
            + message::plain(" lines"@),
        Progress::Failed(e) => message::plain("✗ "@) + message::plain(e),
    }
}

/// How far a conversion has come.
pub fn conversion_message(app: &App) -> (r: Message)
    ensures
        r@ == conversion_text(*app),
{
    match &app.work.conversion_status {
        ConversionStatus::Idle => Message::text("—"),
        ConversionStatus::Running => Message::text("⏳ Converting…"),
        ConversionStatus::Okay => Message::text("✓ ").then_count(
            app.gcode_line_count() as u64,
        ).then_text(" lines"),
        ConversionStatus::Failed(e) => Message::text("✗ ").then_text(e.as_str()),
    }
}

/// The path of the file.
pub fn file_text(app: &App) -> (r: String)
    ensures
        r@ == (match app.work.svg_path {
            Some(p) => p@,
            None => "No file loaded"@,
        }),
{
    match &app.work.svg_path {
        Some(p) => p.clone(),
        None => "No file loaded".to_owned(),
    }
}

/// The progress of a stream, by the lines acknowledged and the lines in all, if
/// there is one to be shown.
pub fn stream_progress(app: &App) -> (r: Option<(usize, usize, Message)>)
    ensures
        r is Some == (app.stream.is_streaming && app.stream.stream_total > 0),
        r matches Some((sent, total, m)) ==> sent == app.stream.stream_sent && total
            == app.stream.stream_total && m@ == actions::ratio(sent as nat, total as nat),
{
    if app.stream.is_streaming && app.stream.stream_total > 0 {
        let sent = app.stream.stream_sent;
        let total = app.stream.stream_total;
        Some((sent, total, actions::ratio_message(sent, total)))
    } else {
        None
    }
}

/// A layer with what is in effect for it.
pub open spec fn layer_text(l: Layer, feedrate: Real, power: Real) -> Seq<Glyph> {
    message::plain(l.label) + message::plain(" — "@) + l.summary(feedrate, power)
}

/// The layers with what is in effect for them.
pub fn layer_texts(app: &App) -> (r: Vec<Message>)
    ensures
        texts(r@) == layers::layers(app.panel.layers@).map_values(
            |l: Layer|
                layer_text(
                    l,
                    app.config.machine_settings.feedrate,
                    app.config.machine_settings.laser_power,
                ),
        ),
{
    let feedrate = app.config.machine_settings.feedrate;
    let power = app.config.machine_settings.laser_power;
    let ghost all = layers::layers(app.panel.layers@).map_values(
        |l: Layer| layer_text(l, feedrate, power),
    );
    let mut out: Vec<Message> = Vec::new();
    let mut i: usize = 0;
    assert(texts(out@) =~= all.take(0));
    while i < app.panel.layers.len()
        invariant
            all == layers::layers(app.panel.layers@).map_values(
                |l: Layer| layer_text(l, feedrate, power),
            ),
            i <= app.panel.layers@.len(),
            texts(out@) == all.take(i as int),
        decreases app.panel.layers@.len() - i,
    {
        let l = &app.panel.layers[i];
        let m = Message::text(l.label.as_str()).then_text(" — ").followed_by(
            l.summary(feedrate, power),
        );
        let ghost before = out@;
        let ghost line = m@;
        out.push(m);
        assert(texts(out@) =~= texts(before).push(line));
        assert(all[i as int] == line);
        assert(texts(out@) =~= all.take(i + 1));
        i = i + 1;
    }
    assert(all.take(all.len() as int) == all);
    out
}

/// What is known of the machine.
pub open spec fn machine_text(app: App) -> Seq<Glyph> {
    match app.machine.grbl_status {
        None => message::plain("Not connected / no status received"@),
        Some(st) => message::plain("State : "@) + message::plain(st.state@.label())
            + message::plain("\nPos   : "@) + (match st@.work_pos() {
            Some(p) => message::plain("X:"@) + message::number(p.x, 3) + message::plain("  Y:"@)
                + message::number(p.y, 3) + message::plain("  Z:"@) + message::number(p.z, 3),
            None => message::plain("position unknown"@),
        }) + message::plain("\nFeed% : "@) + message::count(app.machine.override_feed as nat)
            + message::plain("   Laser% : "@) + message::count(
            app.machine.override_spindle as nat,
        ),
    }
}

fn position_message(st: &GrblStatus) -> (r: Message)
    ensures
        r@ == (match st@.work_pos() {
            Some(p) => message::plain("X:"@) + message::number(p.x, 3) + message::plain("  Y:"@)
                + message::number(p.y, 3) + message::plain("  Z:"@) + message::number(p.z, 3),
            None => message::plain("position unknown"@),
        }),
{
    match st.work_pos() {
        Some(p) => Message::text("X:").then_padded(&p.x, 3, 0).then_text("  Y:").then_padded(
            &p.y,
            3,
            0,
        ).then_text("  Z:").then_padded(&p.z, 3, 0),
        None => Message::text("position unknown"),
    }
}

/// What is known of the machine.
pub fn machine_message(app: &App) -> (r: Message)
    ensures
        r@ == machine_text(*app),
{
    match &app.machine.grbl_status {
        None => Message::text("Not connected / no status received"),
        Some(st) => {
            let label = st.state.label();
            Message::text("State : ").then_text(label.as_str()).then_text(
                "\nPos   : ",
            ).followed_by(position_message(st)).then_text("\nFeed% : ").then_count(
                app.machine.override_feed as u64,
            ).then_text("   Laser% : ").then_count(app.machine.override_spindle as u64)
        },
    }
}

/// The step of a jog.
pub open spec fn step_label(idx: int) -> Seq<char> {
    if idx == 0 {
        "0.01 mm"@
    } else if idx == 1 {
        "0.1 mm"@
    } else if idx == 2 {
        "1 mm"@
    } else if idx == 3 {
        "10 mm"@
    } else {
        "100 mm"@
    }
}

/// The step of a jog.
pub fn jog_step_label(app: &App) -> (r: &'static str)
    ensures
        r@ == step_label(app.machine.jog_step_idx as int),
{
    let idx = app.machine.jog_step_idx;
    if idx == 0 {
        "0.01 mm"
    } else if idx == 1 {
        "0.1 mm"
    } else if idx == 2 {
        "1 mm"
    } else if idx == 3 {
        "10 mm"
    } else {
        "100 mm"
    }
}

/// The settings of the controller, one to a line.
pub fn setting_texts(app: &App) -> (r: Vec<String>)
    ensures
        text::texts(r@) == app::entries(app.controller.grbl_settings@).map_values(
            |e: (Seq<char>, Seq<char>)| e.0 + " = "@ + e.1,
        ),
{
    let list = &app.controller.grbl_settings;
    let ghost all = app::entries(list@).map_values(
        |e: (Seq<char>, Seq<char>)| e.0 + " = "@ + e.1,
    );
    let mut out: Vec<String> = Vec::new();
    let mut i: usize = 0;
    assert(text::texts(out@) =~= all.take(0));
    while i < list.len()
        invariant
            all == app::entries(list@).map_values(
                |e: (Seq<char>, Seq<char>)| e.0 + " = "@ + e.1,
            ),
            i <= list@.len(),
            text::texts(out@) == all.take(i as int),
        decreases list@.len() - i,
    {
        let s = text::joined(
            text::joined(list[i].0.as_str(), " = ").as_str(),
            list[i].1.as_str(),
        );
        let ghost before = out@;
        let ghost line = s@;
        out.push(s);
        assert(text::texts(out@) =~= text::texts(before).push(line));
        assert(app::entries(list@)[i as int] == (list@[i as int].0@, list@[i as int].1@));
        assert(all[i as int] == line);
        assert(text::texts(out@) =~= all.take(i + 1));
        i = i + 1;
    }
    assert(all.take(all.len() as int) == all);
    out
}

/// A field of the settings: its name, its value, and whether it is a switch that
/// is on or off.
#[derive(Debug)]
pub struct Field {
    pub name: &'static str,
    pub value: Message,
    pub switch: Option<bool>,
}

/// A field of the settings.
pub open spec fn is_field(app: App, idx: int, f: Field) -> bool {
    &&& f.name@ == settings::name_of_field(idx)
    &&& f.value@ == app.config.machine_settings@.field(idx)
    &&& f.switch == (if idx >= settings::FIRST_SWITCH {
        Some(events::with_field(app, idx as usize).switch_is_on())
    } else {
        None
    })
}

/// A field of the settings.
pub fn field_at(app: &App, idx: usize) -> (r: Field)
    requires
        idx < settings::FIELD_COUNT,
    ensures
        is_field(*app, idx as int, r),
{
    let s = &app.config.machine_settings;
    let on = if idx == 12 {
        s.circular_interpolation
    } else if idx == 13 {
        s.line_numbers
    } else {
        s.checksums
    };
    Field {
        name: MachineSettings::field_name(idx),
        value: s.field_value(idx),
        switch: if idx >= settings::FIRST_SWITCH {
            Some(on)
        } else {
            None
        },
    }
}

/// What is to be shown anew.
#[derive(Debug)]
pub struct Changes {
    /// The lists that are to be built again.
    pub ports: bool,
    pub layers: bool,
    pub settings: bool,
    /// The lines to be put at the end of the console.
    pub console: Vec<Message>,
    /// Whether the console is to be scrolled to its end.
    pub follow: bool,
    /// The G-code text, if it is to be shown anew.
    pub gcode: Option<String>,
    /// The buttons that can be pressed.
    pub sensitive: Sensitive,
    /// Whether the bar with the progress of a stream is shown.
    pub progress_visible: bool,
}

/// What the widgets show when all is shown.
pub open spec fn caught_up(app: App, synced: Synced) -> Synced {
    Synced {
        console: if app.talk@.console.len() > synced.console {
            app.talk@.console.len() as usize
        } else {
            synced.console
        },
        gcode: true,
        ports: app.ports.port_list@.len() as usize,
        layers: app.panel.layers@.len() as usize,
        settings: app.controller.grbl_settings@.len() as usize,
    }
}

/// What is to be shown anew; afterwards the widgets are taken to show it.
pub fn sync_widgets(app: &App, synced: &mut Synced) -> (r: Changes)
    ensures
        *final(synced) == caught_up(*app, *old(synced)),
        r.ports == (app.ports.port_list@.len() != old(synced).ports),
        r.layers == (app.panel.layers@.len() != old(synced).layers),
        r.settings == (app.controller.grbl_settings@.len() != old(synced).settings),
        texts(r.console@) == unseen(app.talk@, old(synced).console as nat),
        r.follow == (app.talk@.console.len() > old(synced).console && app.talk@.follow),
        text::opt(r.gcode) == (if old(synced).gcode {
            None
        } else {
            Some(
                match app.work.gcode_text {
                    Some(g) => g@,
                    None => seq![],
                },
            )
        }),
        r.sensitive == pressable(*app),
        r.progress_visible == app.stream.is_streaming,
{
    let ports = app.ports.port_list.len();
    let layers = app.panel.layers.len();
    let settings = app.controller.grbl_settings.len();
    let lines = app.talk.console_lines.len();
    assert(app.talk@.console.len() == lines);
    let console = new_lines(app, synced.console);
    let gcode = if synced.gcode {
        None
    } else {
        match &app.work.gcode_text {
            Some(g) => Some(g.clone()),
            None => Some(String::new()),
        }
    };
    assert(text::opt(gcode) == (if synced.gcode {
        None
    } else {
        Some(
            match app.work.gcode_text {
                Some(g) => g@,
                None => Seq::<char>::empty(),
            },
        )
    }));
    let r = Changes {
        ports: ports != synced.ports,
        layers: layers != synced.layers,
        settings: settings != synced.settings,
        console,
        follow: lines > synced.console && app.talk.console_follow,
        gcode,
        sensitive: sensitivities(app),
        progress_visible: app.stream.is_streaming,
    };
    let shown: usize = if lines > synced.console {
        lines
    } else {
        synced.console
    };
    *synced = Synced { console: shown, gcode: true, ports, layers, settings };
    r
}

/// What has been shown is not shown again.
pub proof fn shown_once(app: App, synced: Synced)
    requires
        app.talk@.console.len() <= usize::MAX,
    ensures
        unseen(app.talk@, caught_up(app, synced).console as nat).len() == 0,
        caught_up(app, caught_up(app, synced)) == caught_up(app, synced),
{
}

/// Messages of the window ask for the same as the keys that do the same.
pub proof fn messages_stand_for_keys(msg: AppMsg)
    ensures
        msg matches AppMsg::TabSwitched(p) ==> (as_action(msg) matches Some(Action::Show(tab))
            && (p < 5 ==> tab.place() == p)),
        msg is Connect ==> as_action(msg) == Some(Action::Port(PortAction::Connect)),
        msg is Disconnect ==> as_action(msg) == Some(Action::Port(PortAction::Disconnect)),
        msg is RefreshPorts ==> as_action(msg) == Some(Action::Port(PortAction::Refresh)),
        msg is Home ==> as_action(msg) == Some(Action::Control(ControlAction::Home)),
        msg is CommandSubmit ==> as_action(msg) == Some(Action::Input(InputAction::Submit)),
        msg is OpenFile ==> as_action(msg) == Some(Action::Job(JobAction::Open)),
        msg is SendGCode ==> as_action(msg) == Some(Action::Job(JobAction::Send)),
        msg is AbortStream ==> as_action(msg) == Some(Action::Job(JobAction::Abort)),
        msg is FrameJob ==> as_action(msg) == Some(Action::Job(JobAction::Frame)),
        msg matches AppMsg::JogMove(dir) ==> as_action(msg) == Some(
            Action::Control(ControlAction::Jog(dir)),
        ),
        msg is JogStepLarger ==> as_action(msg) == Some(Action::Control(ControlAction::LargerStep)),
        msg is JogStepSmaller ==> as_action(msg) == Some(
            Action::Control(ControlAction::SmallerStep),
        ),
        msg matches AppMsg::SendRealtime(b) ==> as_action(msg) == Some(
            Action::Control(ControlAction::Byte(b)),
        ),
        msg is RenderPreview ==> as_action(msg) == Some(Action::Render),
        msg is DismissError ==> as_action(msg) == Some(Action::DismissError),
{
}

/// What is chosen or switched in the window is kept as chosen, and nothing else
/// changes with it.
pub proof fn choices_are_kept(before: App, after: App, msg: AppMsg)
    requires
        message_done(before, after, msg),
    ensures
        msg matches AppMsg::PortSelected(i) ==> after.ports.port_list_selected == Some(i as usize)
            && after.ports.selected_baud_idx == before.ports.selected_baud_idx && after.work
            == before.work,
        msg matches AppMsg::BaudSelected(i) ==> after.ports.selected_baud_idx == i as usize
            && after.ports.port_list_selected == before.ports.port_list_selected,
        msg matches AppMsg::ToggleTravelLines(v) ==> after.preview.show_travel_lines == v
            && after.work == before.work,
        msg matches AppMsg::ToggleInvertImage(v) ==> after.work.invert_image == v
            && after.work.gcode_text == before.work.gcode_text && after.preview == before.preview,
        msg matches AppMsg::LayerSelected(i) ==> after.panel.layer_selected == i as usize
            && after.panel.layers == before.panel.layers,
        msg is PollStatus && before.ports.mode is Connected && before.talk@.link is Open
            ==> after.talk@.outbox == before.talk@.outbox.push(Out::Byte('?' as u8)),
        msg is PollStatus && !(before.ports.mode is Connected) ==> after.talk@.outbox
            == before.talk@.outbox && after.talk@.console.last().kind is Error,
        msg matches AppMsg::SendRaw(s) ==> (before.talk@.link is Open ==> after.talk@.outbox
            == before.talk@.outbox.push(Out::Line(message::plain(s@)))),
{
}

/// A setting that is changed in the window is entered like one that is typed, and a
/// switch there is turned round.
pub proof fn settings_are_changed_in_the_window(before: App, after: App, msg: AppMsg)
    requires
        message_done(before, after, msg),
    ensures
        msg matches AppMsg::SettingChanged { idx, value, number } ==> {
            &&& after.config.machine_settings@ == settings::entered(
                before.config.machine_settings@,
                idx as int,
                value@,
                settings::reading(number),
            ).0
            &&& after.work == before.work && after.talk == before.talk
        },
        msg matches AppMsg::SettingToggleBool(idx) ==> {
            &&& 12 <= idx < 15 ==> after.config.machine_settings@.switch(idx as int)
                == !before.config.machine_settings@.switch(idx as int)
            &&& idx < 12 ==> after.config.machine_settings@ == before.config.machine_settings@
            &&& after.work == before.work && after.talk == before.talk
        },
        msg is Tick ==> after.machine.status_poll_ticks == actions::ticks_after(before)
            && after.talk@ == actions::polled(before).ticked() && after.work == before.work,
{
}

/// Buttons can be pressed just where what they ask for can be done.
pub proof fn buttons_can_be_pressed_where_they_work(app: App)
    ensures
        ({
            let p = pressable(app);
            let connected = app.ports.mode is Connected;
            &&& p.connect == !connected && p.disconnect == connected
            &&& p.convert <==> app.work.svg_path is Some
            &&& p.save <==> app.work.gcode_text is Some
            &&& p.frame <==> app.work.gcode_text is Some && connected
            &&& p.send <==> app.work.gcode_text is Some && connected && !app.stream.is_streaming
            &&& p.abort <==> app.stream.is_streaming
        }),
{
}

/// A line of the console is shown whole on a line of its own behind the mark of its
/// kind, and those not shown yet are shown in order.
pub proof fn new_lines_are_shown_in_order(c: Conversation, shown: nat, line: Entry, i: int)
    requires
        shown <= c.console.len(),
        0 <= i < c.console.len() - shown,
    ensures
        unseen(c, shown).len() == c.console.len() - shown,
        unseen(c, shown)[i] == console_text(c.console[shown + i]),
        console_text(line).len() == line.text.len() + 3,
        console_text(line).subrange(2, 2 + line.text.len() as int) == line.text,
        console_text(line).last() == Glyph::Code(10),
        line.kind is Error ==> console_text(line)[0] == Glyph::Code('!' as int),
        line.kind is Sent ==> console_text(line)[0] == Glyph::Code('→' as int),
        line.kind is Received ==> console_text(line)[0] == Glyph::Code('←' as int),
        line.kind is Info ==> console_text(line)[0] == Glyph::Code(' ' as int),
{
    reveal_strlit("→ ");
    reveal_strlit("← ");
    reveal_strlit("  ");
    reveal_strlit("! ");
    reveal_strlit("\n");
    assert(console_text(line).subrange(2, 2 + line.text.len() as int) =~= line.text);
}

/// What was shown is counted up to the end of the console, and never back.
pub proof fn what_is_shown_is_counted(app: App, synced: Synced)
    requires
        app.talk@.console.len() <= usize::MAX,
    ensures
        app.talk@.console.len() >= synced.console ==> caught_up(app, synced).console
            == app.talk@.console.len(),
        app.talk@.console.len() < synced.console ==> caught_up(app, synced).console
            == synced.console,
        caught_up(app, synced).gcode,
{
}

/// A conversion that went well is told with the number of its lines, and a failed
/// one with its reason.
pub proof fn the_conversion_is_told(app: App)
    ensures
        app.work.conversion_status@ is Okay ==> conversion_text(app) == message::plain(
            "✓ "@ + text::decimal(app.line_count()) + " lines"@,
        ),
        app.work.conversion_status@ matches Progress::Failed(e) ==> conversion_text(app)
            == message::plain("✗ "@ + e),
{
    let n = text::decimal(app.line_count());
    message::texts_are_shown_in_order("✓ "@, n, 0);
    message::texts_are_shown_in_order("✓ "@ + n, " lines"@, 0);
    if let Progress::Failed(e) = app.work.conversion_status@ {
        message::texts_are_shown_in_order("✗ "@, e, 0);
    }
}

/// A layer is told by its label and what is in effect for it.
pub proof fn layers_are_told_with_what_is_in_effect(l: Layer, feedrate: Real, power: Real)
    ensures
        ({
            let t = layer_text(l, feedrate, power);
            let n = l.label.len() as int;
            let s = l.summary(feedrate, power);
            &&& t.take(n) == message::plain(l.label)
            &&& t.skip(t.len() - s.len()) == s
        }),
{
    let t = layer_text(l, feedrate, power);
    let s = l.summary(feedrate, power);
    assert(t.take(l.label.len() as int) =~= message::plain(l.label));
    assert(t.skip(t.len() - s.len()) =~= s);
}

/// A field is shown with its own name and value, and with a switch just where it
/// is one of the switches.
pub proof fn fields_are_shown_as_they_are(app: App, idx: int, f: Field)
    requires
        is_field(app, idx, f),
    ensures
        f.name@ == settings::name_of_field(idx),
        f.value@ == app.config.machine_settings@.field(idx),
        f.switch is Some <==> idx >= settings::FIRST_SWITCH,
{
}

/// Only converting and saving ask for something to be done outside.
pub proof fn only_converting_and_saving_ask(
    before: App,
    after: App,
    msg: AppMsg,
    r: Option<Request>,
)
    requires
        asked(before, after, msg, r),
    ensures
        r is Some ==> msg is Convert || msg is SaveGCode,
        r matches Some(Request::Convert(path)) ==> msg is Convert && actions::convert_begun(
            before,
            after,
            Some(path),
        ),
        r matches Some(Request::Save(gcode)) ==> msg is SaveGCode && actions::save_begun(
            before,
            after,
            Some(gcode),
        ),
{
}

/// What is told of the machine ends with the override of the laser, and begins
/// with the state.
pub proof fn the_machine_is_told_by_its_report(app: App)
    requires
        app.machine.grbl_status is Some,
    ensures
        ({
            let t = machine_text(app);
            let s = message::plain(app.machine.grbl_status->0.state@.label());
            let n = message::count(app.machine.override_spindle as nat);
            &&& t.len() >= 8 + s.len() + n.len()
            &&& t.subrange(8, 8 + s.len() as int) == s
            &&& t.skip(t.len() - n.len()) == n
        }),
{
    let t = machine_text(app);
    let s = message::plain(app.machine.grbl_status->0.state@.label());
    let n = message::count(app.machine.override_spindle as nat);
    reveal_strlit("State : ");
    assert(message::plain("State : "@).len() == 8);
    assert(t.subrange(8, 8 + s.len() as int) =~= s);
    assert(t.skip(t.len() - n.len()) =~= n);
}

} // verus!
