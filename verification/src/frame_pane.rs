//! What frames the tabs: the tab bar, the status bar, a popup and the help.
use vstd::prelude::*;

use crate::app::{ActiveTab, App, AppMode, ControlFocus, ConversionErrorPopup, FocusedPane};
use crate::message::{Glyph, Message};
use crate::message;
use crate::text;
use crate::view::{Area, Row, Rows, Run, Tone};
use crate::view;

verus! {

// ── Tab bar ───────────────────────────────────────────────────────────────────

/// The title of a tab in the tab bar.
pub open spec fn tab_run(tab: ActiveTab, active: ActiveTab) -> Run {
    view::told(
        if tab == active {
            Tone::MarkedBold
        } else {
            Tone::Button
        },
        message::plain(" "@) + message::plain(tab.title()) + message::plain(" "@),
    )
}

/// The tab bar: all tabs in order, the active one marked.
pub open spec fn tab_row(active: ActiveTab) -> Seq<Run> {
    seq![
        tab_run(ActiveTab::Connect, active),
        tab_run(ActiveTab::Control, active),
        tab_run(ActiveTab::GCode, active),
        tab_run(ActiveTab::Preview, active),
        tab_run(ActiveTab::Settings, active),
    ]
}

fn with_tab(row: Row, tab: ActiveTab, active: ActiveTab) -> (r: Row)
    ensures
        r@ == row@.push(tab_run(tab, active)),
{
    let tone = if tab == active {
        Tone::MarkedBold
    } else {
        Tone::Button
    };
    row.and_message(tone, Message::text(" ").then_text(tab.label()).then_text(" "))
}

/// The tab bar, and the place of the active tab in it.
pub fn render_tab_bar(app: &App) -> (r: (Row, usize))
    ensures
        r.0@ == tab_row(app.screen.active_tab),
        r.1 == app.screen.active_tab.place(),
{
    let active = app.screen.active_tab;
    let row = with_tab(Row::new(), ActiveTab::Connect, active);
    let row = with_tab(row, ActiveTab::Control, active);
    let row = with_tab(row, ActiveTab::GCode, active);
    let row = with_tab(row, ActiveTab::Preview, active);
    let row = with_tab(row, ActiveTab::Settings, active);
    let place: usize = match active {
        ActiveTab::Connect => 0,
        ActiveTab::Control => 1,
        ActiveTab::GCode => 2,
        ActiveTab::Preview => 3,
        ActiveTab::Settings => 4,
    };
    (row, place)
}

/// The name of the program, at the end of the tab bar.
pub fn brand() -> (r: Row)
    ensures
        r@ == view::single(Tone::Brand, " Larris "@),
{
    Row::of(Tone::Brand, " Larris ")
}

// ── Status bar ────────────────────────────────────────────────────────────────

/// The keys of the connect tab.
pub open spec fn connect_hint(mode: AppMode, focused: FocusedPane) -> Seq<char> {
    match focused {
        FocusedPane::SerialList => if mode is Connected {
            "F1-F5:tabs  d:disconnect  Tab:focus  ?:help  q:quit"@
        } else {
            "F1-F5:tabs  ↑↓:ports  Enter:connect  b:baud  r:refresh  ?:help  q:quit"@
        },
        FocusedPane::Console =>
            "F1-F5:tabs  ↑↓/PgUp/Dn:scroll  End:follow  Tab:focus  q:quit"@,
        FocusedPane::CommandInput =>
            "F1-F5:tabs  Enter:send  ↑↓:history  Tab:focus  Esc:clear  q:quit"@,
    }
}

fn connect_hint_of(mode: AppMode, focused: FocusedPane) -> (r: &'static str)
    ensures
        r@ == connect_hint(mode, focused),
{
    match focused {
        FocusedPane::SerialList => if mode == AppMode::Connected {
            "F1-F5:tabs  d:disconnect  Tab:focus  ?:help  q:quit"
        } else {
            "F1-F5:tabs  ↑↓:ports  Enter:connect  b:baud  r:refresh  ?:help  q:quit"
        },
        FocusedPane::Console => "F1-F5:tabs  ↑↓/PgUp/Dn:scroll  End:follow  Tab:focus  q:quit",
        FocusedPane::CommandInput =>
            "F1-F5:tabs  Enter:send  ↑↓:history  Tab:focus  Esc:clear  q:quit",
    }
}

/// The keys of the control tab.
pub open spec fn control_hint(focus: ControlFocus) -> Seq<char> {
    match focus {
        ControlFocus::Jog =>
            "F1-F5:tabs  Tab:focus  ←→↑↓:jog XY  PgUp/Dn:jog Z  +/-:step  ?:poll  p:auto-poll  ~:resume  !:hold  q:quit"@,
        ControlFocus::Overrides =>
            "F1-F5:tabs  Tab:focus  ↑↓:feed±10%  ←→:feed±1%  f:feed100%  r:rapid100%  PgUp/Dn:laser±10%  s:laser100%  q:quit"@,
        ControlFocus::Settings => "F1-F5:tabs  Tab:focus  ↑↓:navigate  r:refresh($$)  q:quit"@,
    }
}

fn control_hint_of(focus: ControlFocus) -> (r: &'static str)
    ensures
        r@ == control_hint(focus),
{
    match focus {
        ControlFocus::Jog =>
            "F1-F5:tabs  Tab:focus  ←→↑↓:jog XY  PgUp/Dn:jog Z  +/-:step  ?:poll  p:auto-poll  ~:resume  !:hold  q:quit",
        ControlFocus::Overrides =>
            "F1-F5:tabs  Tab:focus  ↑↓:feed±10%  ←→:feed±1%  f:feed100%  r:rapid100%  PgUp/Dn:laser±10%  s:laser100%  q:quit",
        ControlFocus::Settings => "F1-F5:tabs  Tab:focus  ↑↓:navigate  r:refresh($$)  q:quit",
    }
}

/// The keys of the active tab.
pub open spec fn tab_hint(app: App) -> Seq<char> {
    match app.screen.active_tab {
        ActiveTab::Connect => connect_hint(app.ports.mode, app.screen.focused),
        ActiveTab::Control => control_hint(app.screen.control_focus),
        ActiveTab::GCode => if app.stream.is_streaming {
            "Streaming GCode…  a:abort  q:quit"@
        } else {
            "F1-F5:tabs  o:open SVG  c:convert  s:save  g:send  a:abort  f:frame job  ↑↓/PgUp/Dn:scroll  q:quit"@
        },
        ActiveTab::Preview => "F1-F5:tabs  p:render preview  q:quit"@,
        ActiveTab::Settings => if app.config.settings_edit_buf is Some {
            "Enter:save  Esc:cancel  Backspace:delete char"@
        } else {
            "F1-F5:tabs  ↑↓/j/k:navigate  Enter/e:edit  Space:toggle bool  r:reset defaults  q:quit"@
        },
    }
}

fn tab_hint_of(app: &App) -> (r: &'static str)
    ensures
        r@ == tab_hint(*app),
{
    match app.screen.active_tab {
        ActiveTab::Connect => connect_hint_of(app.ports.mode, app.screen.focused),
        ActiveTab::Control => control_hint_of(app.screen.control_focus),
        ActiveTab::GCode => if app.stream.is_streaming {
            "Streaming GCode…  a:abort  q:quit"
        } else {
            "F1-F5:tabs  o:open SVG  c:convert  s:save  g:send  a:abort  f:frame job  ↑↓/PgUp/Dn:scroll  q:quit"
        },
        ActiveTab::Preview => "F1-F5:tabs  p:render preview  q:quit",
        ActiveTab::Settings => if app.config.settings_edit_buf.is_some() {
            "Enter:save  Esc:cancel  Backspace:delete char"
        } else {
            "F1-F5:tabs  ↑↓/j/k:navigate  Enter/e:edit  Space:toggle bool  r:reset defaults  q:quit"
        },
    }
}

/// The left part of the status bar: the status message, or the keys of the tab.
pub open spec fn status_left(app: App) -> Seq<Run> {
    seq![
        view::told(
            Tone::Title,
            message::plain(" "@) + (match app.talk@.status {
                Some(m) => m,
                None => message::plain(tab_hint(app)),
            }),
        ),
    ]
}

/// The right part of the status bar: the connection.
pub open spec fn status_right(app: App) -> Run {
    match app.ports.connected_port {
        Some(port) => view::told(
            Tone::GoodBold,
            message::plain(" ● "@) + message::plain(port@) + message::plain(" @ "@)
                + message::plain(
                app.ports.baud_rates@[app.ports.selected_baud_idx as int].title(),
            ) + message::plain(" "@),
        ),
        None => view::run(Tone::BadBold, " ○ Disconnected "@),
    }
}

/// The status bar, in its two parts.
pub fn render_status_bar(app: &App) -> (r: (Row, Row))
    requires
        app.wf(),
    ensures
        r.0@ == status_left(*app),
        r.1@ == seq![status_right(*app)],
{
    let left = match &app.talk.status_message {
        Some(m) => Message::text(" ").followed_by(m.clone()),
        None => Message::text(" ").then_text(tab_hint_of(app)),
    };
    let right = match &app.ports.connected_port {
        Some(port) => Row::new().and_message(
            Tone::GoodBold,
            Message::text(" ● ").then_text(port.as_str()).then_text(" @ ").then_text(
                app.selected_baud().label(),
            ).then_text(" "),
        ),
        None => Row::of(Tone::BadBold, " ○ Disconnected "),
    };
    (Row::new().and_message(Tone::Title, left), right)
}

/// While there is a status message it is shown, and nothing else on the left.
pub proof fn status_message_comes_first(app: App, m: Seq<Glyph>)
    requires
        app.talk@.status == Some(m),
    ensures
        status_left(app) == seq![view::told(Tone::Title, message::plain(" "@) + m)],
{
}

// ── Popup ─────────────────────────────────────────────────────────────────────

/// The place of a popup for `lines` lines of details: centred, with room for
/// them as far as the screen goes.
pub open spec fn popup_place(lines: u16, screen: Area) -> Area {
    view::middle(
        62,
        if lines <= u16::MAX - 6 {
            (lines + 6) as u16
        } else {
            u16::MAX
        },
        screen,
    )
}

/// The place of a popup for `lines` lines of details.
pub fn popup_area(lines: u16, screen: Area) -> (r: Area)
    requires
        screen.fits(),
    ensures
        r == popup_place(lines, screen),
{
    view::centred(62, lines.saturating_add(6), screen)
}

/// The title of a popup.
pub fn render_conversion_error_popup(popup: &ConversionErrorPopup) -> (r: Row)
    ensures
        r@ == seq![
            view::told(
                Tone::Alert,
                message::plain(" ✗ "@) + message::plain(popup.title@) + message::plain(" "@),
            ),
        ],
{
    Row::new().and_message(
        Tone::Alert,
        Message::text(" ✗ ").then_text(popup.title.as_str()).then_text(" "),
    )
}

/// The keys below a popup.
pub fn popup_hint() -> (r: Row)
    ensures
        r@ == view::single(Tone::Info, " Press Enter, Esc or Space to dismiss "@),
{
    Row::of(Tone::Info, " Press Enter, Esc or Space to dismiss ")
}

// ── Help ──────────────────────────────────────────────────────────────────────

/// The place of the help: centred.
pub fn help_area(screen: Area) -> (r: Area)
    requires
        screen.fits(),
    ensures
        r == view::middle(60, 62, screen),
{
    view::centred(60, 62, screen)
}

/// The keys in the section `global`.
pub open spec fn global_help() -> Seq<Seq<Run>> {
    seq![
        view::single(Tone::Heading, "  GLOBAL"@),
        view::single(Tone::Title, "  F1  Connect tab    F2  Control tab"@),
        view::single(Tone::Title, "  F3  GCode tab      F4  Preview tab"@),
        view::single(Tone::Title, "  F5  Settings tab"@),
        view::single(Tone::Title, "  Tab          Cycle pane / control focus"@),
        view::single(Tone::Title, "  ?          Toggle this help overlay"@),
        view::single(Tone::Title, "  q / Ctrl-C Quit"@),
    ]
}

fn render_global_help() -> (r: Rows)
    ensures
        r@ == global_help(),
{
    Rows::new()
        .and_line(Tone::Heading, "  GLOBAL")
        .and_line(Tone::Title, "  F1  Connect tab    F2  Control tab")
        .and_line(Tone::Title, "  F3  GCode tab      F4  Preview tab")
        .and_line(Tone::Title, "  F5  Settings tab")
        .and_line(Tone::Title, "  Tab          Cycle pane / control focus")
        .and_line(Tone::Title, "  ?          Toggle this help overlay")
        .and_line(Tone::Title, "  q / Ctrl-C Quit")
}

/// The keys in the section `connect`.
pub open spec fn connect_help() -> Seq<Seq<Run>> {
    seq![
        view::single(Tone::Heading, "  CONNECT TAB"@),
        view::single(Tone::Title, "  ↑ / ↓      Navigate port list"@),
        view::single(Tone::Title, "  Enter      Connect to selected port"@),
        view::single(Tone::Title, "  b          Open baud-rate selector"@),
        view::single(Tone::Title, "  r          Refresh port list"@),
        view::single(Tone::Title, "  d (conn)   Disconnect from current port"@),
        view::single(Tone::Title, "  Console:  ↑↓/PgUp/PgDn scroll, End → follow"@),
        view::single(Tone::Title, "  Input:    type + Enter to send, ↑↓ for history"@),
    ]
}

fn render_connect_help() -> (r: Rows)
    ensures
        r@ == connect_help(),
{
    Rows::new()
        .and_line(Tone::Heading, "  CONNECT TAB")
        .and_line(Tone::Title, "  ↑ / ↓      Navigate port list")
        .and_line(Tone::Title, "  Enter      Connect to selected port")
        .and_line(Tone::Title, "  b          Open baud-rate selector")
        .and_line(Tone::Title, "  r          Refresh port list")
        .and_line(Tone::Title, "  d (conn)   Disconnect from current port")
        .and_line(Tone::Title, "  Console:  ↑↓/PgUp/PgDn scroll, End → follow")
        .and_line(Tone::Title, "  Input:    type + Enter to send, ↑↓ for history")
}

/// The keys in the section `gcode`.
pub open spec fn gcode_help() -> Seq<Seq<Run>> {
    seq![
        view::single(Tone::Heading, "  GCODE TAB"@),
        view::single(Tone::Title, "  o          Open SVG or image file (PNG/JPEG/…)"@),
        view::single(Tone::Title, "  c          Convert loaded SVG/image to GCode"@),
        view::single(Tone::Title, "  s          Save GCode to file"@),
        view::single(Tone::Title, "  g          Stream GCode (ok-gated, one line at a time)"@),
        view::single(Tone::Title, "  a          Abort an in-progress GCode stream"@),
        view::single(
            Tone::Title,
            "  f          Frame job: trace laser bounding box with laser off (S0)"@,
        ),
        view::single(Tone::Title, "  x          Edit workpiece X offset (mm) inline"@),
        view::single(Tone::Title, "  y          Edit workpiece Y offset (mm) inline"@),
        view::single(Tone::Title, "  ↑↓/PgUp/Dn Scroll GCode text"@),
        view::single(Tone::Title, "  Home/End   Jump to start / end of GCode"@),
    ]
}

fn render_gcode_help() -> (r: Rows)
    ensures
        r@ == gcode_help(),
{
    Rows::new()
        .and_line(Tone::Heading, "  GCODE TAB")
        .and_line(Tone::Title, "  o          Open SVG or image file (PNG/JPEG/…)")
        .and_line(Tone::Title, "  c          Convert loaded SVG/image to GCode")
        .and_line(Tone::Title, "  s          Save GCode to file")
        .and_line(Tone::Title, "  g          Stream GCode (ok-gated, one line at a time)")
        .and_line(Tone::Title, "  a          Abort an in-progress GCode stream")
        .and_line(
            Tone::Title,
            "  f          Frame job: trace laser bounding box with laser off (S0)",
        )
        .and_line(Tone::Title, "  x          Edit workpiece X offset (mm) inline")
        .and_line(Tone::Title, "  y          Edit workpiece Y offset (mm) inline")
        .and_line(Tone::Title, "  ↑↓/PgUp/Dn Scroll GCode text")
        .and_line(Tone::Title, "  Home/End   Jump to start / end of GCode")
}

/// The keys in the section `layer`.
pub open spec fn layer_help() -> Seq<Seq<Run>> {
    seq![
        view::single(Tone::Heading, "  GCODE TAB — Layer Panel  (press l to focus)"@),
        view::single(Tone::Title, "  l            Focus / unfocus layer panel"@),
        view::single(Tone::Title, "  ↑↓ / j/k     Navigate layers"@),
        view::single(Tone::Title, "  f            Edit speed (feedrate) for selected layer"@),
        view::single(Tone::Title, "  p            Edit power (S-word) for selected layer"@),
        view::single(Tone::Title, "  n            Edit pass count for selected layer"@),
        view::single(Tone::Title, "  m            Cycle render mode: Default → Outline → Fill"@),
        view::single(Tone::Title, "  r            Reset all layer overrides to SVG-baked values"@),
        view::single(Tone::Title, "  [edit] Enter:save  Esc:cancel  Backspace:delete"@),
    ]
}

fn render_layer_help() -> (r: Rows)
    ensures
        r@ == layer_help(),
{
    Rows::new()
        .and_line(Tone::Heading, "  GCODE TAB — Layer Panel  (press l to focus)")
        .and_line(Tone::Title, "  l            Focus / unfocus layer panel")
        .and_line(Tone::Title, "  ↑↓ / j/k     Navigate layers")
        .and_line(Tone::Title, "  f            Edit speed (feedrate) for selected layer")
        .and_line(Tone::Title, "  p            Edit power (S-word) for selected layer")
        .and_line(Tone::Title, "  n            Edit pass count for selected layer")
        .and_line(Tone::Title, "  m            Cycle render mode: Default → Outline → Fill")
        .and_line(Tone::Title, "  r            Reset all layer overrides to SVG-baked values")
        .and_line(Tone::Title, "  [edit] Enter:save  Esc:cancel  Backspace:delete")
}

/// The keys in the section `control`.
pub open spec fn control_help() -> Seq<Seq<Run>> {
    seq![
        view::single(Tone::Heading, "  CONTROL TAB  (Tab cycles: Jog → Overrides → Settings)"@),
        view::single(Tone::Title, "  [Jog]  ←→↑↓ XY jog   PgUp/Dn Z jog   +/- step size"@),
        view::single(Tone::Title, "  [Jog]  ~ resume  ! feed-hold  ^X soft-reset  $H home"@),
        view::single(Tone::Title, "  [Jog]  ? poll status   p toggle auto-poll   $$ settings"@),
        view::single(Tone::Title, "  [Ovr]  ↑↓ feed±10%  ←→ feed±1%  f/r/s reset to 100%"@),
        view::single(Tone::Title, "  [Ovr]  PgUp/Dn laser±10%  5=rapid 50%  2=rapid 25%"@),
        view::single(Tone::Title, "  [Set]  ↑↓ navigate   r refresh ($$)"@),
    ]
}

fn render_control_help() -> (r: Rows)
    ensures
        r@ == control_help(),
{
    Rows::new()
        .and_line(Tone::Heading, "  CONTROL TAB  (Tab cycles: Jog → Overrides → Settings)")
        .and_line(Tone::Title, "  [Jog]  ←→↑↓ XY jog   PgUp/Dn Z jog   +/- step size")
        .and_line(Tone::Title, "  [Jog]  ~ resume  ! feed-hold  ^X soft-reset  $H home")
        .and_line(Tone::Title, "  [Jog]  ? poll status   p toggle auto-poll   $$ settings")
        .and_line(Tone::Title, "  [Ovr]  ↑↓ feed±10%  ←→ feed±1%  f/r/s reset to 100%")
        .and_line(Tone::Title, "  [Ovr]  PgUp/Dn laser±10%  5=rapid 50%  2=rapid 25%")
        .and_line(Tone::Title, "  [Set]  ↑↓ navigate   r refresh ($$)")
}

/// The keys in the section `settings`.
pub open spec fn settings_help() -> Seq<Seq<Run>> {
    seq![
        view::single(Tone::Heading, "  SETTINGS TAB"@),
        view::single(Tone::Title, "  ↑↓ / j/k   Navigate fields"@),
        view::single(Tone::Title, "  Enter / e  Edit selected field"@),
        view::single(Tone::Title, "  Space      Toggle boolean fields"@),
        view::single(Tone::Title, "  r          Reset all to defaults"@),
        view::single(Tone::Title, "  [edit] Enter:save  Esc:cancel"@),
    ]
}

fn render_settings_help() -> (r: Rows)
    ensures
        r@ == settings_help(),
{
    Rows::new()
        .and_line(Tone::Heading, "  SETTINGS TAB")
        .and_line(Tone::Title, "  ↑↓ / j/k   Navigate fields")
        .and_line(Tone::Title, "  Enter / e  Edit selected field")
        .and_line(Tone::Title, "  Space      Toggle boolean fields")
        .and_line(Tone::Title, "  r          Reset all to defaults")
        .and_line(Tone::Title, "  [edit] Enter:save  Esc:cancel")
}

/// The keys in the section `preview`.
pub open spec fn preview_help() -> Seq<Seq<Run>> {
    seq![
        view::single(Tone::Heading, "  PREVIEW TAB"@),
        view::single(Tone::Title, "  p          Render / re-render toolpath preview image"@),
        view::single(Tone::Title, "  t          Toggle travel (rapid/G0) lines on/off"@),
    ]
}

fn render_preview_help() -> (r: Rows)
    ensures
        r@ == preview_help(),
{
    Rows::new()
        .and_line(Tone::Heading, "  PREVIEW TAB")
        .and_line(Tone::Title, "  p          Render / re-render toolpath preview image")
        .and_line(Tone::Title, "  t          Toggle travel (rapid/G0) lines on/off")
}

/// The keys in the section `closing`.
pub open spec fn closing_help() -> Seq<Seq<Run>> {
    seq![
        view::single(Tone::Info, "  Press ? to close"@),
    ]
}

fn render_closing_help() -> (r: Rows)
    ensures
        r@ == closing_help(),
{
    Rows::new()
        .and_line(Tone::Info, "  Press ? to close")
}

/// The rows of the help: its sections with gaps between them.
pub open spec fn help_rows() -> Seq<Seq<Run>> {
    let gap = seq![Seq::<Run>::empty()];
    global_help() + gap + connect_help() + gap + gcode_help()
        + gap + layer_help() + gap + control_help() + gap + settings_help()
        + gap + preview_help() + gap + closing_help()
}

/// The help.
pub fn render_help_overlay() -> (r: Rows)
    ensures
        r@ == help_rows(),
{
    let r = render_global_help()
        .joined(Rows::new().and_gap())
        .joined(render_connect_help())
        .joined(Rows::new().and_gap())
        .joined(render_gcode_help())
        .joined(Rows::new().and_gap())
        .joined(render_layer_help())
        .joined(Rows::new().and_gap())
        .joined(render_control_help())
        .joined(Rows::new().and_gap())
        .joined(render_settings_help())
        .joined(Rows::new().and_gap())
        .joined(render_preview_help())
        .joined(Rows::new().and_gap())
        .joined(render_closing_help());
    assert(r@ == help_rows());
    r
}

// ── Laws ──────────────────────────────────────────────────────────────────────

/// The tab bar shows all tabs in their order by their titles, and marks the active
/// one only.
pub proof fn the_active_tab_is_marked(tab: ActiveTab, active: ActiveTab)
    ensures
        ({
            let row = tab_row(active);
            &&& row.len() == 5
            &&& row[tab.place()].text == message::plain(" "@) + message::plain(tab.title())
                + message::plain(" "@)
            &&& row[tab.place()].tone is MarkedBold <==> tab == active
        }),
{
}

/// Without a status message the keys of the active tab are shown; the connection is
/// shown by its port and rate, or as none.
pub proof fn the_status_bar_shows_the_keys(app: App)
    ensures
        app.talk@.status is None ==> status_left(app)[0].text == message::plain(" "@)
            + message::plain(tab_hint(app)),
        app.ports.connected_port is None ==> status_right(app).tone is BadBold,
        app.ports.connected_port is Some ==> status_right(app).tone is GoodBold,
        app.ports.connected_port matches Some(port) ==> status_right(app).text == message::plain(
            " ● "@ + port@ + " @ "@ + app.ports.baud_rates@[app.ports.selected_baud_idx as int].title()
                + " "@,
        ),
{
    if let Some(port) = app.ports.connected_port {
        let rate = app.ports.baud_rates@[app.ports.selected_baud_idx as int].title();
        message::texts_are_shown_in_order(" ● "@, port@, 0);
        message::texts_are_shown_in_order(" ● "@ + port@, " @ "@, 0);
        message::texts_are_shown_in_order(" ● "@ + port@ + " @ "@, rate, 0);
        message::texts_are_shown_in_order(" ● "@ + port@ + " @ "@ + rate, " "@, 0);
    }
}

/// A popup has room for its details and six rows more, as far as the screen goes.
pub proof fn a_popup_has_room_for_its_details(lines: u16, screen: Area)
    ensures
        lines + 6 <= screen.height ==> popup_place(lines, screen).height == lines + 6,
        lines + 6 > screen.height ==> popup_place(lines, screen).height == screen.height,
        popup_place(lines, screen).width == (if screen.width < 62 {
            screen.width
        } else {
            62
        }),
{
}

} // verus!
