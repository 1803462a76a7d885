//! The connect tab: ports, controls, console and command line.
use vstd::prelude::*;

use crate::app::{ActiveTab, App, AppMode, FocusedPane};
use crate::app;
use crate::input::CommandLine;
use crate::message;
use crate::talk::{CONSOLE_MAX_LINES, ConsoleLine, Conversation, Entry, LineKind};
use crate::text;
use crate::view::{Area, Row, Rows, Run, Tone, Window};
use crate::view;

verus! {

// ── Ports ─────────────────────────────────────────────────────────────────────

/// Whether a pane of the connect tab is in use.
pub open spec fn in_use(app: App, pane: FocusedPane) -> bool {
    app.screen.focused == pane && app.screen.active_tab is Connect
}

/// Whether the list of ports is in use.
pub fn ports_in_use(app: &App) -> (r: bool)
    ensures
        r == in_use(*app, FocusedPane::SerialList),
{
    app.screen.focused == FocusedPane::SerialList && app.screen.active_tab == ActiveTab::Connect
}

/// The row of a port.
pub open spec fn port_row(port: Seq<char>, connected: bool, selected: bool) -> Seq<Run> {
    seq![
        if connected {
            view::run(Tone::Good, "● "@)
        } else {
            view::run(Tone::Info, "  "@)
        },
        view::run(
            if selected {
                Tone::Accent
            } else {
                Tone::Title
            },
            port,
        ),
    ]
}

/// What is shown in place of a list of ports.
pub open spec fn no_ports() -> Seq<Seq<Run>> {
    seq![
        seq![],
        view::single(Tone::Info, "  No serial ports found"@),
        seq![],
        view::single(Tone::Info, "  Press 'r' to refresh"@),
    ]
}

/// The rows of the list of ports.
pub open spec fn port_rows(app: App) -> Seq<Seq<Run>> {
    let ports = app.ports.port_list@;
    if ports.len() == 0 {
        no_ports()
    } else {
        Seq::new(
            ports.len(),
            |i: int|
                port_row(
                    ports[i]@,
                    text::opt(app.ports.connected_port) == Some(ports[i]@),
                    app.ports.port_list_selected == Some(i as usize),
                ),
        )
    }
}

/// The list of ports: the connected one is marked, the selected one stands out.
pub fn render_port_list(app: &App) -> (r: Rows)
    ensures
        r@ == port_rows(*app),
{
    let n = app.ports.port_list.len();
    if n == 0 {
        return Rows::new()
            .and_gap()
            .and_line(Tone::Info, "  No serial ports found")
            .and_gap()
            .and_line(Tone::Info, "  Press 'r' to refresh");
    }
    let mut rows = Rows::new();
    let mut i: usize = 0;
    while i < n
        invariant
            n == app.ports.port_list@.len(),
            0 < n,
            i <= n,
            rows@ == port_rows(*app).take(i as int),
        decreases n - i,
    {
        let port = app.ports.port_list[i].as_str();
        let connected = match &app.ports.connected_port {
            Some(p) => text::same(p.as_str(), port),
            None => false,
        };
        let selected = match app.ports.port_list_selected {
            Some(s) => s == i,
            None => false,
        };
        let row = if connected {
            Row::new().and(Tone::Good, "● ")
        } else {
            Row::new().and(Tone::Info, "  ")
        };
        let tone = if selected {
            Tone::Accent
        } else {
            Tone::Title
        };
        let row = row.and(tone, port);
        assert(row@ =~~= port_rows(*app)[i as int]);
        rows = rows.and(row);
        assert(rows@ == port_rows(*app).take(i + 1));
        i = i + 1;
    }
    assert(port_rows(*app).take(n as int) == port_rows(*app));
    rows
}

// ── Controls ──────────────────────────────────────────────────────────────────

/// The rows of the controls.
pub open spec fn control_rows(app: App) -> Seq<Seq<Run>> {
    seq![
        if app.ports.mode is Connected {
            view::single(Tone::GoodBold, "● CONNECTED"@)
        } else {
            view::single(Tone::Bad, "○ DISCONNECTED"@)
        },
        seq![
            view::run(Tone::Info, "  Baud: "@),
            view::told(
                Tone::AccentBold,
                message::plain(
                    app.ports.baud_rates@[app.ports.selected_baud_idx as int].title(),
                ) + message::plain(" "@) + message::plain(
                    if app.screen.baud_dropdown_open { "▲"@ } else { "▼"@ },
                ),
            ),
        ],
        seq![],
        view::single(Tone::Info, " Enter:connect  b:baud  r:refresh"@),
        view::single(Tone::Info, " d:disconnect   $H:home (Control tab)"@),
    ]
}

/// The controls: the state of the connection and the baud rate.
pub fn render_control_block(app: &App) -> (r: Rows)
    requires
        app.wf(),
    ensures
        r@ == control_rows(*app),
{
    let state = if app.ports.mode == AppMode::Connected {
        Row::of(Tone::GoodBold, "● CONNECTED")
    } else {
        Row::of(Tone::Bad, "○ DISCONNECTED")
    };
    let indicator = if app.screen.baud_dropdown_open {
        "▲"
    } else {
        "▼"
    };
    let baud = app.selected_baud();
    let r = Rows::new()
        .and(state)
        .and(
            Row::new().and(Tone::Info, "  Baud: ").and_message(
                Tone::AccentBold,
                message::Message::text(baud.label()).then_text(" ").then_text(indicator),
            ),
        )
        .and_gap()
        .and_line(Tone::Info, " Enter:connect  b:baud  r:refresh")
        .and_line(Tone::Info, " d:disconnect   $H:home (Control tab)");
    assert(r@ =~~= control_rows(*app));
    r
}

// ── Console ───────────────────────────────────────────────────────────────────

/// The tone of a line of the console.
pub open spec fn tone_of(kind: LineKind) -> Tone {
    match kind {
        LineKind::Received => Tone::Good,
        LineKind::Sent => Tone::Warn,
        LineKind::Info => Tone::Info,
        LineKind::Error => Tone::BadBold,
    }
}

/// The mark before a line of the console.
pub open spec fn mark_of(kind: LineKind) -> Run {
    match kind {
        LineKind::Received => view::run(Tone::Good, "◀ "@),
        LineKind::Sent => view::run(Tone::Warn, "▶ "@),
        LineKind::Info => view::run(Tone::Info, "ℹ "@),
        LineKind::Error => view::run(Tone::Bad, "✗ "@),
    }
}

/// The row of a line of the console.
pub open spec fn entry_row(line: Entry) -> Seq<Run> {
    seq![mark_of(line.kind), view::told(tone_of(line.kind), line.text)]
}

/// The row of a line of the console.
pub fn console_line(line: &ConsoleLine) -> (r: Row)
    ensures
        r@ == entry_row(line@),
{
    let (mark, tone) = match line.kind {
        LineKind::Received => (Row::of(Tone::Good, "◀ "), Tone::Good),
        LineKind::Sent => (Row::of(Tone::Warn, "▶ "), Tone::Warn),
        LineKind::Info => (Row::of(Tone::Info, "ℹ "), Tone::Info),
        LineKind::Error => (Row::of(Tone::Bad, "✗ "), Tone::BadBold),
    };
    mark.and_message(tone, line.text.clone())
}

/// `a` less `b`, but not below zero.
pub open spec fn less(a: int, b: int) -> int {
    if a < b {
        0
    } else {
        a - b
    }
}

/// The part of the console that is shown in `height` rows.
pub open spec fn console_part(c: Conversation, height: nat) -> Window {
    let total = c.console.len() as int;
    let end = less(total, c.scroll as int);
    let most = less(total, height as int);
    Window {
        start: less(end, height as int) as usize,
        end: end as usize,
        bar: if total > height {
            Some(((most + 1) as usize, less(most, c.scroll as int) as usize))
        } else {
            None
        },
    }
}

/// The part of the console that is shown in `height` rows.
pub fn console_window(app: &App, height: usize) -> (r: Window)
    requires
        app.wf(),
    ensures
        r == console_part(app.talk@, height as nat),
{
    let total = app.talk.console_lines.len();
    assert(app.talk@.console.len() == total);
    let scroll = app.talk.console_scroll as usize;
    let end: usize = total.saturating_sub(scroll);
    let start: usize = end.saturating_sub(height);
    let bar = if total > height {
        let most: usize = total - height;
        Some((most + 1, most.saturating_sub(scroll)))
    } else {
        None
    };
    Window { start, end, bar }
}

/// The rows of the console that are shown in `height` rows.
pub open spec fn console_rows(c: Conversation, height: nat) -> Seq<Seq<Run>> {
    let w = console_part(c, height);
    c.console.subrange(w.start as int, w.end as int).map_values(|l: Entry| entry_row(l))
}

/// The rows of the console that are shown in `height` rows.
pub fn render_console(app: &App, height: usize) -> (r: Rows)
    requires
        app.wf(),
    ensures
        r@ == console_rows(app.talk@, height as nat),
{
    let w = console_window(app, height);
    let ghost all = console_rows(app.talk@, height as nat);
    let mut rows = Rows::new();
    let mut i: usize = w.start;
    assert(app.talk@.console.len() == app.talk.console_lines@.len());
    assert(rows@ == all.take(0));
    while i < w.end
        invariant
            w == console_part(app.talk@, height as nat),
            all == console_rows(app.talk@, height as nat),
            app.talk@.console.len() == app.talk.console_lines@.len(),
            w.start <= i <= w.end <= app.talk.console_lines@.len(),
            rows@ == all.take(i - w.start),
        decreases w.end - i,
    {
        rows = rows.and(console_line(&app.talk.console_lines[i]));
        assert(app.talk@.console[i as int] == app.talk.console_lines@[i as int]@);
        assert(all[i - w.start] == entry_row(app.talk@.console[i as int]));
        assert(rows@ == all.take(i + 1 - w.start));
        i = i + 1;
    }
    assert(all.take(all.len() as int) == all);
    rows
}

/// What is shown is part of the console and has room; a console that follows
/// shows its end, and the scroll bar stands at one of its positions.
pub proof fn console_part_has_room(c: Conversation, height: nat)
    requires
        c.console.len() <= CONSOLE_MAX_LINES,
    ensures
        ({
            let w = console_part(c, height);
            &&& w.start <= w.end <= c.console.len()
            &&& w.end - w.start <= height
            &&& c.scroll == 0 ==> w.end == c.console.len()
            &&& w.bar matches Some((n, at)) ==> at < n
            &&& c.scroll == 0 ==> (w.bar matches Some((n, at)) ==> at == n - 1)
        }),
{
}

/// The mark in the title of the console.
pub open spec fn follow_mark(follow: bool) -> Run {
    if follow {
        view::run(Tone::Good, " ↓FOLLOW "@)
    } else {
        view::run(Tone::Warn, " SCROLL "@)
    }
}

/// The title of the console.
pub fn console_title(app: &App) -> (r: Row)
    ensures
        r@ == seq![view::run(Tone::TitleBold, " Console "@), follow_mark(app.talk@.follow)],
{
    let row = Row::new().and(Tone::TitleBold, " Console ");
    if app.talk.console_follow {
        row.and(Tone::Good, " ↓FOLLOW ")
    } else {
        row.and(Tone::Warn, " SCROLL ")
    }
}

// ── Command line ──────────────────────────────────────────────────────────────

/// The title of the command line.
pub fn input_title(app: &App) -> (r: Row)
    ensures
        r@ == (if app.ports.mode is Connected {
            view::single(Tone::TitleBold, " Command (Enter to send) "@)
        } else {
            view::single(Tone::InfoBold, " Command (not connected) "@)
        }),
{
    if app.ports.mode == AppMode::Connected {
        Row::of(Tone::TitleBold, " Command (Enter to send) ")
    } else {
        Row::of(Tone::InfoBold, " Command (not connected) ")
    }
}

/// The row of the command line, with the cursor on a character or behind the
/// last.
pub open spec fn input_row(line: CommandLine, connected: bool, focused: bool) -> Seq<Run> {
    let tone = if connected {
        Tone::Title
    } else {
        Tone::Info
    };
    let cursor = if focused && connected {
        Tone::Marked
    } else {
        Tone::Faded
    };
    let under = line.at < line.text.len();
    seq![
        view::run(tone, line.text.take(line.at)),
        view::run(
            cursor,
            if under {
                seq![line.text[line.at]]
            } else {
                seq![' ']
            },
        ),
        view::run(
            tone,
            if under {
                line.text.skip(line.at + 1)
            } else {
                seq![]
            },
        ),
    ]
}

/// The row of the command line.
pub fn render_input(app: &App) -> (r: Row)
    requires
        app.wf(),
    ensures
        r@ == input_row(
            app.input@,
            app.ports.mode is Connected,
            app.screen.focused is CommandInput,
        ),
{
    let connected = app.ports.mode == AppMode::Connected;
    let focused = app.screen.focused == FocusedPane::CommandInput;
    let tone = if connected {
        Tone::Title
    } else {
        Tone::Info
    };
    let cursor = if focused && connected {
        Tone::Marked
    } else {
        Tone::Faded
    };
    let (left, under, right) = app.input.around_cursor();
    assert(app.input@.at == app.input@.text.len() ==> right@ == Seq::<char>::empty());
    Row::new().and(tone, left.as_str()).and(cursor, under.as_str()).and(tone, right.as_str())
}

/// The shown command line holds the text, with a space for a cursor behind it.
pub proof fn input_row_holds_the_text(line: CommandLine, connected: bool, focused: bool)
    requires
        0 <= line.at <= line.text.len(),
    ensures
        ({
            let row = input_row(line, connected, focused);
            row[0].text + row[1].text + row[2].text == message::plain(
                if line.at < line.text.len() {
                    line.text
                } else {
                    line.text.push(' ')
                },
            )
        }),
{
    let row = input_row(line, connected, focused);
    let whole = if line.at < line.text.len() {
        line.text
    } else {
        line.text.push(' ')
    };
    assert(row[0].text + row[1].text + row[2].text =~= message::plain(whole));
}

// ── Baud rates ────────────────────────────────────────────────────────────────

/// The row of a baud rate.
pub open spec fn baud_row(rate: Seq<char>, selected: bool) -> Seq<Run> {
    if selected {
        seq![view::run(Tone::Plain, "▶ "@), view::run(Tone::AccentBold, rate)]
    } else {
        seq![view::run(Tone::Plain, "  "@), view::run(Tone::Title, rate)]
    }
}

/// The rows of the list of baud rates.
pub open spec fn baud_rows(app: App) -> Seq<Seq<Run>> {
    Seq::new(
        app.ports.baud_rates@.len(),
        |i: int|
            baud_row(app.ports.baud_rates@[i].title(), i == app.ports.selected_baud_idx),
    )
}

/// The list of baud rates.
pub fn render_baud_dropdown(app: &App) -> (r: Rows)
    ensures
        r@ == baud_rows(*app),
{
    let mut rows = Rows::new();
    let mut i: usize = 0;
    assert(rows@ == baud_rows(*app).take(0));
    while i < app.ports.baud_rates.len()
        invariant
            i <= app.ports.baud_rates@.len(),
            rows@ == baud_rows(*app).take(i as int),
        decreases app.ports.baud_rates@.len() - i,
    {
        let rate = app.ports.baud_rates[i].label();
        let row = if i == app.ports.selected_baud_idx {
            Row::new().and(Tone::Plain, "▶ ").and(Tone::AccentBold, rate)
        } else {
            Row::new().and(Tone::Plain, "  ").and(Tone::Title, rate)
        };
        assert(row@ =~~= baud_rows(*app)[i as int]);
        rows = rows.and(row);
        assert(rows@ == baud_rows(*app).take(i + 1));
        i = i + 1;
    }
    assert(baud_rows(*app).take(app.ports.baud_rates@.len() as int) == baud_rows(*app));
    rows
}

/// The place of a list of `items` baud rates: above the controls, as far as the
/// screen goes.
pub open spec fn dropdown_place(items: nat, width: u16, height: u16) -> Area {
    let wanted = items + 2;
    let y = less(less(height as int, 10), wanted as int);
    Area {
        x: 2,
        y: y as u16,
        width: view::lesser(20, less(width as int, 4)) as u16,
        height: view::lesser(wanted as int, less(height as int, y)) as u16,
    }
}

/// The place of the list of baud rates on a screen.
pub fn dropdown_area(app: &App, width: u16, height: u16) -> (r: Area)
    requires
        app.ports.baud_rates@.len() + 2 <= u16::MAX,
    ensures
        r == dropdown_place(app.ports.baud_rates@.len(), width, height),
{
    let wanted: u16 = app.ports.baud_rates.len() as u16 + 2;
    let y: u16 = height.saturating_sub(10).saturating_sub(wanted);
    let room: u16 = width.saturating_sub(4);
    let below: u16 = height.saturating_sub(y);
    Area {
        x: 2,
        y,
        width: if room < 20 {
            room
        } else {
            20
        },
        height: if wanted < below {
            wanted
        } else {
            below
        },
    }
}

/// The list of baud rates does not reach beyond the lower and right edges of the
/// screen.
pub proof fn dropdown_stays_on_the_screen(items: nat, width: u16, height: u16)
    requires
        items + 2 <= u16::MAX,
        width >= 2,
    ensures
        ({
            let a = dropdown_place(items, width, height);
            a.x + a.width <= width && a.y + a.height <= height
        }),
{
}

// ── Laws ──────────────────────────────────────────────────────────────────────

/// A difference is not negative, and added to what was taken away it is at least
/// what there was.
pub proof fn differences_stop_at_zero(a: int, b: int)
    ensures
        b <= a ==> less(a, b) + b == a,
        b > a ==> less(a, b) == 0,
{
}

/// Ports are listed in order under their paths; the connected one is marked by a
/// dot, the selected one by its tone.
pub proof fn ports_are_listed_in_order(app: App, i: int)
    requires
        0 <= i < app.ports.port_list@.len() <= usize::MAX,
    ensures
        ({
            let row = port_rows(app)[i];
            let path = app.ports.port_list@[i]@;
            &&& port_rows(app).len() == app.ports.port_list@.len()
            &&& row.len() == 2 && row[1].text == message::plain(path)
            &&& row[0].tone is Good <==> (app.ports.connected_port matches Some(p) && p@ == path)
            &&& row[1].tone is Accent <==> app.ports.port_list_selected == Some(i as usize)
        }),
{
}

/// Whether a pane is in use depends on the tab and on the keyboard both.
pub proof fn a_pane_is_in_use_on_its_tab(app: App, pane: FocusedPane)
    ensures
        in_use(app, pane) <==> app.screen.active_tab is Connect && app.screen.focused == pane,
        control_rows(app)[0][0].tone is GoodBold <==> app.ports.mode is Connected,
{
}

/// Every kind of line has its own tone and its own mark, an error stands out as
/// wrong, and the text of a line is shown as it is.
pub proof fn kinds_of_lines_are_told_apart(a: LineKind, b: LineKind, line: Entry)
    ensures
        tone_of(a) == tone_of(b) ==> a == b,
        mark_of(a).tone == mark_of(b).tone ==> a == b,
        tone_of(LineKind::Error) is BadBold && tone_of(LineKind::Sent) is Warn && tone_of(
            LineKind::Received,
        ) is Good && tone_of(LineKind::Info) is Info,
        entry_row(line).len() == 2 && entry_row(line)[1].text == line.text && entry_row(
            line,
        )[1].tone == tone_of(line.kind) && entry_row(line)[0] == mark_of(line.kind),
{
}

/// The console shows its lines in order: as many as have room, up to as many before
/// its end as it is scrolled.
pub proof fn the_console_shows_its_lines(c: Conversation, height: nat, i: int)
    requires
        c.console.len() <= CONSOLE_MAX_LINES,
        0 <= i < console_rows(c, height).len(),
    ensures
        ({
            let w = console_part(c, height);
            &&& c.scroll <= c.console.len() ==> w.end == c.console.len() - c.scroll
            &&& c.scroll > c.console.len() ==> w.end == 0
            &&& height <= w.end ==> w.start == w.end - height
            &&& height > w.end ==> w.start == 0
            &&& w.bar is Some <==> c.console.len() > height
            &&& console_rows(c, height)[i] == entry_row(c.console[w.start + i])
            &&& console_rows(c, height).len() == w.end - w.start
        }),
{
}

/// Of the baud rates the selected one is marked, and only that.
pub proof fn the_selected_rate_is_marked(app: App, i: int)
    requires
        0 <= i < app.ports.baud_rates@.len(),
    ensures
        ({
            let row = baud_rows(app)[i];
            &&& baud_rows(app).len() == app.ports.baud_rates@.len()
            &&& row[1].text == message::plain(app.ports.baud_rates@[i].title())
            &&& row[1].tone is AccentBold <==> i == app.ports.selected_baud_idx
        }),
        follow_mark(true).tone is Good && follow_mark(false).tone is Warn,
{
}

/// The cursor of the command line stands on its character, marked only where the
/// line can be typed on.
pub proof fn the_cursor_stands_on_its_character(line: CommandLine, connected: bool, focused: bool)
    requires
        0 <= line.at <= line.text.len(),
    ensures
        ({
            let row = input_row(line, connected, focused);
            &&& row.len() == 3
            &&& row[0].text == message::plain(line.text.take(line.at))
            &&& line.at < line.text.len() ==> row[1].text == message::plain(
                seq![line.text[line.at]],
            ) && row[2].text == message::plain(line.text.skip(line.at + 1))
            &&& line.at == line.text.len() ==> row[1].text == message::plain(seq![' '])
                && row[2].text.len() == 0
            &&& row[1].tone is Marked <==> connected && focused
            &&& row[0].tone is Title <==> connected
        }),
{
}

} // verus!
