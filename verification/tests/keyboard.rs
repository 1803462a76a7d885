//! What keys do.
use larris::actions::{finish_connect, load_file, Source};
use larris::app::{
    ActiveTab, App, AppMode, Axis, BaudRate, ControlFocus, FocusedPane, GCodeFocus,
};
use larris::binary64::Real;
use larris::events::{
    commit_setting, default_save_name, dialog_closed, handle_key, nothing_opened, nothing_saved,
    Outcome, Request,
};
use larris::keys::{read_key, Action, InputAction, Key, KeyCode, Modifiers};
use larris::layers::{LayerMode, SvgLayerInfo};
use larris::message::{Message, Piece, Quantity};
use larris::talk::Outgoing;

fn num(v: f64) -> Real {
    Real { bits: v.to_bits() }
}

fn amount(q: &Quantity) -> f64 {
    match q {
        Quantity::Exact(r) => f64::from_bits(r.bits),
        Quantity::Written(s) => s.parse().unwrap(),
        Quantity::Minus(a, b) => amount(a) - amount(b),
    }
}

fn shown(m: &Message) -> String {
    let mut out = String::new();
    for p in &m.pieces {
        match p {
            Piece::Plain(s) => out += s,
            Piece::Number { quantity, places, width } => {
                let (w, p) = (*width as usize, *places as usize);
                out += &format!("{:>w$.p$}", amount(quantity));
            }
        }
    }
    out
}

fn console(app: &App) -> Vec<String> {
    app.talk.console_lines.iter().map(|l| shown(&l.text)).collect()
}

fn status(app: &App) -> String {
    app.talk.status_message.as_ref().map(shown).unwrap_or_default()
}

/// What was posted since the last look.
fn posted(app: &mut App) -> Vec<String> {
    app.talk
        .take_outbox()
        .iter()
        .map(|o| match o {
            Outgoing::Line(m) => shown(m),
            Outgoing::Byte(b) => format!("0x{b:02x}"),
            Outgoing::Stream(v) => format!("stream {v:?}"),
            Outgoing::AbortStream => "abort".to_owned(),
            Outgoing::Disconnect => "disconnect".to_owned(),
        })
        .collect()
}

/// A state with an open connection, after homing was asked for.
fn connected() -> App {
    let mut app = App::new();
    finish_connect(&mut app, "/dev/ttyUSB0".to_owned(), Ok(()));
    app.talk.take_outbox();
    app
}

fn plain(code: KeyCode) -> Key {
    Key { code, modifiers: Modifiers::Plain }
}

fn press(app: &mut App, code: KeyCode) -> Outcome {
    handle_key(app, plain(code), &mut false)
}

fn press_with(app: &mut App, c: char, modifiers: Modifiers) -> Outcome {
    handle_key(app, Key { code: KeyCode::Char(c), modifiers }, &mut false)
}

fn type_in(app: &mut App, s: &str) {
    for c in s.chars() {
        press(app, KeyCode::Char(c));
    }
}

#[test]
fn help_takes_the_keys_until_it_is_closed() {
    let mut app = App::new();
    let mut help = false;
    handle_key(&mut app, plain(KeyCode::Char('?')), &mut help);
    assert!(help);
    let out = handle_key(&mut app, plain(KeyCode::Char('q')), &mut help);
    assert!(help && !out.redraw && !app.screen.should_quit);
    handle_key(&mut app, plain(KeyCode::Esc), &mut help);
    assert!(!help);
}

#[test]
fn a_popup_takes_the_keys_until_it_is_dismissed() {
    for code in [KeyCode::Enter, KeyCode::Esc, KeyCode::Char(' ')] {
        let mut app = App::new();
        app.show_conversion_error("T".to_owned(), Message::text("b"));
        assert!(!press(&mut app, KeyCode::F(2)).redraw);
        assert_eq!(app.screen.active_tab, ActiveTab::Connect);
        press(&mut app, code);
        assert!(app.work.conversion_error_popup.is_none());
    }
}

#[test]
fn function_keys_show_tabs() {
    let mut app = App::new();
    for (n, tab) in (1..=5).zip(ActiveTab::ALL) {
        press(&mut app, KeyCode::F(n));
        assert_eq!(app.screen.active_tab, tab);
    }
    assert!(!press(&mut app, KeyCode::F(9)).redraw);
}

#[test]
fn leaving_disconnects() {
    let mut app = connected();
    press(&mut app, KeyCode::Char('q'));
    assert!(!app.screen.should_quit);
    assert_eq!(app.input.buffer, "q");
    press_with(&mut app, 'c', Modifiers::Control);
    assert!(app.screen.should_quit);
    assert_eq!(app.ports.mode, AppMode::Disconnected);
    assert_eq!(posted(&mut app), ["disconnect"]);
    let mut app = App::new();
    press(&mut app, KeyCode::Char('Q'));
    assert!(app.screen.should_quit);
}

#[test]
fn tab_goes_through_the_panes() {
    let mut app = App::new();
    for pane in [FocusedPane::Console, FocusedPane::CommandInput, FocusedPane::SerialList] {
        press(&mut app, KeyCode::Tab);
        assert_eq!(app.screen.focused, pane);
    }
    press(&mut app, KeyCode::BackTab);
    assert_eq!(app.screen.focused, FocusedPane::CommandInput);
    press(&mut app, KeyCode::F(2));
    for pane in [ControlFocus::Overrides, ControlFocus::Settings, ControlFocus::Jog] {
        press(&mut app, KeyCode::Tab);
        assert_eq!(app.screen.control_focus, pane);
    }
    press(&mut app, KeyCode::BackTab);
    assert_eq!(app.screen.control_focus, ControlFocus::Settings);
}

#[test]
fn ports_are_chosen_and_connected() {
    let mut app = App::new();
    app.ports.port_list = vec!["/dev/null".to_owned(), "/dev/zero".to_owned()];
    press(&mut app, KeyCode::Char('j'));
    press(&mut app, KeyCode::Char('b'));
    assert!(app.screen.baud_dropdown_open);
    press(&mut app, KeyCode::Down);
    press(&mut app, KeyCode::Enter);
    assert!(!app.screen.baud_dropdown_open);
    match press(&mut app, KeyCode::Enter).request {
        Some(Request::Connect(path, baud)) => {
            assert_eq!(path, "/dev/zero");
            assert_eq!(baud, BaudRate::B56000);
        }
        other => panic!("{other:?}"),
    }
    assert!(matches!(press(&mut app, KeyCode::Char('r')).request, Some(Request::RefreshPorts)));
    assert!(!press(&mut app, KeyCode::Char('d')).redraw);
}

#[test]
fn a_command_is_typed_and_sent() {
    let mut app = connected();
    type_in(&mut app, "$X");
    press(&mut app, KeyCode::Enter);
    assert_eq!(posted(&mut app), ["$X"]);
    type_in(&mut app, "  ");
    assert!(!press(&mut app, KeyCode::Enter).redraw);
    assert!(posted(&mut app).is_empty());
    press(&mut app, KeyCode::Up);
    assert_eq!(app.input.buffer, "$X");
    press_with(&mut app, 'u', Modifiers::Control);
    assert_eq!(app.input.buffer, "");
    type_in(&mut app, "G1 X1");
    press(&mut app, KeyCode::Home);
    press_with(&mut app, 'k', Modifiers::Control);
    assert_eq!(app.input.buffer, "");
}

#[test]
fn nothing_can_be_typed_without_a_connection() {
    let mut app = App::new();
    app.screen.focused = FocusedPane::CommandInput;
    assert_eq!(read_key(&app, false, plain(KeyCode::Char('a'))), Action::Ignore);
    let mut app = connected();
    assert_eq!(
        read_key(&app, false, plain(KeyCode::Char('a'))),
        Action::Input(InputAction::Insert('a'))
    );
    press_with(&mut app, 'A', Modifiers::Shift);
    assert!(!press_with(&mut app, 'x', Modifiers::Other).redraw);
    assert_eq!(app.input.buffer, "A");
}

#[test]
fn the_machine_is_controlled_by_keys() {
    let mut app = connected();
    press(&mut app, KeyCode::F(2));
    press(&mut app, KeyCode::Left);
    press(&mut app, KeyCode::PageUp);
    press(&mut app, KeyCode::Char('~'));
    press(&mut app, KeyCode::Char('!'));
    press_with(&mut app, 'x', Modifiers::Control);
    press_with(&mut app, 'X', Modifiers::Shift);
    press(&mut app, KeyCode::Char('$'));
    press(&mut app, KeyCode::Char('g'));
    press(&mut app, KeyCode::Esc);
    press_with(&mut app, 'H', Modifiers::Shift);
    assert_eq!(
        posted(&mut app),
        [
            "$J=G21G91X-1.0000F3000",
            "$J=G21G91Z1.0000F3000",
            "0x7e",
            "0x21",
            "0x18",
            "$X",
            "$$",
            "$G",
            "0x85",
            "$H"
        ]
    );
    press(&mut app, KeyCode::Char('p'));
    assert_eq!(app.machine.status_poll_interval, 0);
    press(&mut app, KeyCode::Char('p'));
    assert_eq!(app.machine.status_poll_interval, 4);
}

#[test]
fn overrides_are_sent_as_bytes() {
    let mut app = connected();
    press(&mut app, KeyCode::F(2));
    press(&mut app, KeyCode::Tab);
    app.machine.override_feed = 120;
    for code in [
        KeyCode::Up,
        KeyCode::Down,
        KeyCode::Right,
        KeyCode::Left,
        KeyCode::Char('5'),
        KeyCode::Char('2'),
        KeyCode::PageUp,
        KeyCode::PageDown,
        KeyCode::Char('0'),
    ] {
        press(&mut app, code);
    }
    assert_eq!(
        posted(&mut app),
        [
            "0x91", "0x92", "0x93", "0x94", "0x96", "0x97", "0x9a", "0x9b", "0x90", "0x95", "0x99"
        ]
    );
    assert_eq!(app.machine.override_feed, 100);
}

#[test]
fn the_gcode_tab_asks_for_outside_work() {
    let mut app = App::new();
    press(&mut app, KeyCode::F(3));
    assert!(matches!(press(&mut app, KeyCode::Char('o')).request, Some(Request::OpenFile)));
    assert!(press(&mut app, KeyCode::Char('c')).request.is_none());
    app.work.svg_path = Some("a.svg".to_owned());
    match press(&mut app, KeyCode::Char('c')).request {
        Some(Request::Convert(p)) => assert_eq!(p, "a.svg"),
        other => panic!("{other:?}"),
    }
    app.work.gcode_text = Some("G90\nG1\n".to_owned());
    match press(&mut app, KeyCode::Char('s')).request {
        Some(Request::Save(g)) => assert_eq!(g, "G90\nG1\n"),
        other => panic!("{other:?}"),
    }
    assert!(matches!(press(&mut app, KeyCode::Char('f')).request, Some(Request::Frame)));
    press(&mut app, KeyCode::End);
    assert_eq!(app.work.gcode_scroll, 1);
    assert!(!press(&mut app, KeyCode::Char('i')).redraw);
    app.work.is_image_source = true;
    press(&mut app, KeyCode::Char('i'));
    assert!(app.work.invert_image);
}

#[test]
fn keys_tell_which_key_is_missing() {
    let mut app = App::new();
    press(&mut app, KeyCode::F(3));
    assert!(press(&mut app, KeyCode::Char('c')).request.is_none());
    assert_eq!(app.talk.status_message.as_ref().map(shown).unwrap(), "No SVG loaded.");
    assert!(press(&mut app, KeyCode::Char('s')).request.is_none());
    assert_eq!(app.talk.status_message.as_ref().map(shown).unwrap(), "No GCode to save.");
    let said: Vec<String> = app.talk.console_lines.iter().map(|l| shown(&l.text)).collect();
    assert_eq!(
        said,
        ["No SVG loaded. Press 'o' to open one.", "No GCode to save. Convert an SVG first."]
    );
    app.work.svg_path = Some("a.svg".to_owned());
    assert!(matches!(press(&mut app, KeyCode::Char('c')).request, Some(Request::Convert(_))));
}

#[test]
fn the_offset_is_edited_by_keys() {
    let mut app = App::new();
    press(&mut app, KeyCode::F(3));
    assert!(matches!(
        press(&mut app, KeyCode::Char('x')).request,
        Some(Request::BeginOffsetEdit(Axis::X))
    ));
    assert!(matches!(
        press(&mut app, KeyCode::Char('Y')).request,
        Some(Request::BeginOffsetEdit(Axis::Y))
    ));
    app.begin_offset_edit(Axis::X, "0.0".to_owned());
    press(&mut app, KeyCode::Backspace);
    press(&mut app, KeyCode::Char('5'));
    assert_eq!(app.offset.as_ref().unwrap().text, "0.5");
    assert!(matches!(press(&mut app, KeyCode::Enter).request, Some(Request::CommitOffsetEdit)));
    press(&mut app, KeyCode::Esc);
    assert!(app.offset.is_none());
    app.begin_offset_edit(Axis::Y, String::new());
    load_file(&mut app, "a.svg".to_owned(), Source::Drawing(None));
    assert!(app.offset.is_none());
}

#[test]
fn layers_are_reached_and_left() {
    let mut app = App::new();
    press(&mut app, KeyCode::F(3));
    assert!(!press(&mut app, KeyCode::Char('l')).redraw);
    app.load_layers_from_svg(Some(vec![SvgLayerInfo {
        label: "x".to_owned(),
        key: "x".to_owned(),
        svg_feedrate: Some(num(100.0)),
        svg_power: None,
        svg_passes: None,
    }]));
    press(&mut app, KeyCode::Char('l'));
    assert_eq!(app.screen.gcode_focus, GCodeFocus::Layers);
    for mode in [LayerMode::Outline, LayerMode::Fill, LayerMode::Default] {
        press(&mut app, KeyCode::Char('m'));
        assert_eq!(app.panel.layers[0].mode, mode);
    }
    assert!(matches!(
        press(&mut app, KeyCode::Char('f')).request,
        Some(Request::BeginLayerEdit(0))
    ));
    let value = app.layer_edit_value(0).map(|m| shown(&m)).unwrap();
    assert_eq!(value, "100");
    app.layer_begin_edit(0, value);
    press(&mut app, KeyCode::Backspace);
    press(&mut app, KeyCode::Char('5'));
    assert_eq!(app.panel.layer_edit_buf, "105");
    assert!(matches!(
        press(&mut app, KeyCode::Enter).request,
        Some(Request::CommitLayerEdit)
    ));
    assert!(app.layer_commit_edit(Some(num(105.0))));
    press(&mut app, KeyCode::Esc);
    assert_eq!(app.screen.gcode_focus, GCodeFocus::GCode);
}

#[test]
fn the_preview_is_drawn_on_demand() {
    let mut app = App::new();
    press(&mut app, KeyCode::F(4));
    assert!(press(&mut app, KeyCode::Char('p')).request.is_none());
    app.work.gcode_text = Some("G90".to_owned());
    assert!(matches!(press(&mut app, KeyCode::Char('p')).request, Some(Request::Render(_))));
    press(&mut app, KeyCode::Char('t'));
    assert!(!app.preview.show_travel_lines);
}

#[test]
fn settings_are_edited_by_keys() {
    let mut app = App::new();
    press(&mut app, KeyCode::F(5));
    for _ in 0..6 {
        press(&mut app, KeyCode::Down);
    }
    assert!(matches!(press(&mut app, KeyCode::Enter).request, Some(Request::BeginEdit)));
    app.settings_begin_edit("3000".to_owned());
    press(&mut app, KeyCode::Backspace);
    press(&mut app, KeyCode::Char('7'));
    assert_eq!(app.config.settings_edit_buf.as_deref(), Some("3007"));
    assert!(matches!(press(&mut app, KeyCode::Enter).request, Some(Request::CommitEdit)));
    commit_setting(&mut app, Ok(num(3007.0)));
    assert_eq!(status(&app), "Setting saved.");
    assert_eq!(app.config.machine_settings.feedrate, num(3007.0));
    press(&mut app, KeyCode::End);
    press(&mut app, KeyCode::Enter);
    assert!(app.config.machine_settings.checksums);
    press(&mut app, KeyCode::Char('r'));
    assert!(!app.config.machine_settings.checksums);
    assert_eq!(app.config.machine_settings.feedrate, num(3000.0));
}

#[test]
fn the_console_is_scrolled() {
    let mut app = App::new();
    for i in 0..50 {
        app.push_info(Message::text(&i.to_string()));
    }
    app.screen.focused = FocusedPane::Console;
    press(&mut app, KeyCode::Up);
    assert_eq!(app.talk.console_scroll, 1);
    assert!(!app.talk.console_follow);
    press(&mut app, KeyCode::Home);
    assert!(app.talk.console_scroll > 1);
    press(&mut app, KeyCode::End);
    assert_eq!(app.talk.console_scroll, 0);
    assert!(app.talk.console_follow);
    assert_eq!(console(&app).len(), 50);
}

#[test]
fn dialogs_end_with_a_clear_screen_and_a_word() {
    let mut app = App::new();
    dialog_closed(&mut app);
    assert!(app.screen.needs_clear);
    nothing_opened(&mut app);
    assert_eq!(status(&app), "No file selected.");
    nothing_saved(&mut app);
    assert_eq!(status(&app), "Save cancelled.");
    assert_eq!(default_save_name(Some("logo")), "logo.gcode");
    assert_eq!(default_save_name(None), "output.gcode");
}
