//! The window: its messages, its pages and what it shows.
use larris::actions::{apply_line, finish_connect};
use larris::app::{ActiveTab, App, ConversionStatus};
use larris::binary64::Real;
use larris::events::Request;
use larris::grbl::JogDir;
use larris::layers::SvgLayerInfo;
use larris::message::{Message, Piece, Quantity};
use larris::pages::{
    build_connect_page, build_control_page, build_gcode_page, build_jog_pad, build_override_row,
    build_preview_page, build_step_row, message_of, Button, Press,
};
use larris::talk::Outgoing;
use larris::window::{
    conversion_message, field_at, file_text, handle_message, jog_step_label, layer_texts,
    machine_message, new_lines, sensitivities, setting_texts, status_text, stream_progress,
    sync_widgets, AppMsg, Synced,
};

fn num(v: f64) -> Real {
    Real { bits: v.to_bits() }
}

fn amount(q: &Quantity) -> f64 {
    match q {
        Quantity::Exact(r) => f64::from_bits(r.bits),
        Quantity::Written(s) => s.parse().unwrap(),
        Quantity::Minus(a, b) => amount(a) - amount(b),
    }
}

fn shown(m: &Message) -> String {
    let mut out = String::new();
    for p in &m.pieces {
        match p {
            Piece::Plain(s) => out += s,
            Piece::Number { quantity, places, width } => {
                let (w, p) = (*width as usize, *places as usize);
                out += &format!("{:>w$.p$}", amount(quantity));
            }
        }
    }
    out
}



/// What was posted since the last look.
fn posted(app: &mut App) -> Vec<String> {
    app.talk
        .take_outbox()
        .iter()
        .map(|o| match o {
            Outgoing::Line(m) => shown(m),
            Outgoing::Byte(b) => format!("0x{b:02x}"),
            Outgoing::Stream(v) => format!("stream {v:?}"),
            Outgoing::AbortStream => "abort".to_owned(),
            Outgoing::Disconnect => "disconnect".to_owned(),
        })
        .collect()
}

/// A state with an open connection, after homing was asked for.
fn connected() -> App {
    let mut app = App::new();
    finish_connect(&mut app, "/dev/ttyUSB0".to_owned(), Ok(()));
    app.talk.take_outbox();
    app
}

#[test]
fn pages_show_tabs() {
    let mut app = App::new();
    for (i, tab) in ActiveTab::ALL.iter().enumerate() {
        assert!(handle_message(&mut app, AppMsg::TabSwitched(i as u32)).is_none());
        assert_eq!(app.screen.active_tab, *tab);
    }
}

#[test]
fn widgets_select() {
    let mut app = App::new();
    handle_message(&mut app, AppMsg::PortSelected(3));
    handle_message(&mut app, AppMsg::BaudSelected(1));
    handle_message(&mut app, AppMsg::LayerSelected(2));
    handle_message(&mut app, AppMsg::ToggleTravelLines(false));
    handle_message(&mut app, AppMsg::ToggleInvertImage(true));
    assert_eq!(app.ports.port_list_selected, Some(3));
    assert_eq!(app.selected_baud().as_u32(), 56_000);
    assert_eq!(app.panel.layer_selected, 2);
    assert!(!app.preview.show_travel_lines && app.work.invert_image);
}

#[test]
fn messages_reach_the_machine() {
    let mut app = connected();
    handle_message(&mut app, AppMsg::JogMove(JogDir::XPlus));
    handle_message(&mut app, AppMsg::PollStatus);
    handle_message(&mut app, AppMsg::SendRealtime(0x21));
    handle_message(&mut app, AppMsg::SendRaw("$X".to_owned()));
    handle_message(&mut app, AppMsg::Home);
    assert_eq!(posted(&mut app), ["$J=G21G91X1.0000F3000", "0x3f", "0x21", "$X", "$H"]);
    for _ in 0..4 {
        handle_message(&mut app, AppMsg::Tick);
    }
    assert_eq!(posted(&mut app), ["0x3f"]);
}

#[test]
fn messages_ask_for_outside_work() {
    let mut app = App::new();
    assert!(matches!(handle_message(&mut app, AppMsg::OpenFile), Some(Request::OpenFile)));
    assert!(matches!(handle_message(&mut app, AppMsg::RefreshPorts), Some(Request::RefreshPorts)));
    assert!(matches!(handle_message(&mut app, AppMsg::FrameJob), Some(Request::Frame)));
    assert!(handle_message(&mut app, AppMsg::Convert).is_none());
}

#[test]
fn settings_are_changed_from_the_window() {
    let mut app = App::new();
    let changed = AppMsg::SettingChanged {
        idx: 6,
        value: "1200".to_owned(),
        number: Ok(num(1200.0)),
    };
    handle_message(&mut app, changed);
    assert_eq!(app.config.machine_settings.feedrate, num(1200.0));
    handle_message(&mut app, AppMsg::SettingToggleBool(13));
    assert!(app.config.machine_settings.line_numbers);
    let f = field_at(&app, 13);
    assert_eq!((f.name, f.switch), ("Line numbers", Some(true)));
    let f = field_at(&app, 6);
    assert_eq!((shown(&f.value), f.switch), ("1200".to_owned(), None));
}

#[test]
fn buttons_follow_the_state() {
    let mut app = App::new();
    let s = sensitivities(&app);
    assert!(s.connect && !s.disconnect && !s.convert && !s.send && !s.abort && !s.frame && !s.save);
    app = connected();
    app.work.svg_path = Some("a.svg".to_owned());
    app.work.gcode_text = Some("G90".to_owned());
    let s = sensitivities(&app);
    assert!(!s.connect && s.disconnect && s.convert && s.send && !s.abort && s.frame && s.save);
    app.stream.is_streaming = true;
    let s = sensitivities(&app);
    assert!(!s.send && s.abort);
}

#[test]
fn labels_follow_the_state() {
    let mut app = App::new();
    assert_eq!(shown(&status_text(&app)), "Ready");
    assert_eq!(file_text(&app), "No file loaded");
    assert_eq!(shown(&conversion_message(&app)), "—");
    assert_eq!(jog_step_label(&app), "1 mm");
    assert_eq!(shown(&machine_message(&app)), "Not connected / no status received");
    assert!(stream_progress(&app).is_none());
    app.work.gcode_text = Some("a\nb\n".to_owned());
    app.work.conversion_status = ConversionStatus::Okay;
    assert_eq!(shown(&conversion_message(&app)), "✓ 2 lines");
    apply_line(&mut app, "<Idle|WPos:1,2,3>");
    assert_eq!(
        shown(&machine_message(&app)),
        "State : Idle\nPos   : X:1.000  Y:2.000  Z:3.000\nFeed% : 100   Laser% : 100"
    );
    app.stream.is_streaming = true;
    app.stream.stream_sent = 1;
    app.stream.stream_total = 4;
    let (sent, total, text) = stream_progress(&app).unwrap();
    assert_eq!((sent, total, shown(&text)), (1, 4, "1/4".to_owned()));
    apply_line(&mut app, "$30=1000");
    assert_eq!(setting_texts(&app), ["$30 = 1000"]);
    app.load_layers_from_svg(Some(vec![SvgLayerInfo {
        label: "Cut".to_owned(),
        key: "cut".to_owned(),
        svg_feedrate: Some(num(500.0)),
        svg_power: None,
        svg_passes: Some(2),
    }]));
    let texts: Vec<String> = layer_texts(&app).iter().map(shown).collect();
    assert_eq!(texts, ["Cut — F500 S1000 ×2"]);
}

#[test]
fn the_console_is_shown_once() {
    let mut app = App::new();
    app.push_info(Message::text("a"));
    app.push_sent(Message::text("b"));
    app.push_received(Message::text("c"));
    app.push_error(Message::text("d"));
    let all: Vec<String> = new_lines(&app, 0).iter().map(shown).collect();
    assert_eq!(all, ["  a\n", "→ b\n", "← c\n", "! d\n"]);
    let mut synced = Synced { console: 2, gcode: false, ports: 0, layers: 0, settings: 0 };
    let c = sync_widgets(&app, &mut synced);
    assert!(c.sensitive == sensitivities(&app) && !c.progress_visible);
    assert_eq!(c.console.len(), 2);
    assert!(c.follow && !c.ports);
    assert_eq!(c.gcode.as_deref(), Some(""));
    let c = sync_widgets(&app, &mut synced);
    assert!(c.console.is_empty() && !c.follow && c.gcode.is_none());
}

fn labels(v: &[Button]) -> Vec<&str> {
    v.iter().map(|b| b.label).collect()
}

#[test]
fn buttons_send_their_messages() {
    assert!(matches!(message_of(Press::Jog(JogDir::ZMinus)), AppMsg::JogMove(JogDir::ZMinus)));
    assert!(matches!(message_of(Press::Byte(0x21)), AppMsg::SendRealtime(0x21)));
    match message_of(Press::Unlock) {
        AppMsg::SendRaw(s) => assert_eq!(s, "$X"),
        other => panic!("{other:?}"),
    }
}

#[test]
fn pages_have_their_buttons() {
    assert!(labels(&build_gcode_page()).starts_with(&["Open File…", "Convert", "Send GCode", "Abort"]));
    for page in [
        build_connect_page(),
        build_step_row(),
        build_jog_pad(),
        build_control_page(),
        build_override_row(),
        build_gcode_page(),
        build_preview_page(),
    ] {
        assert!(!page.is_empty());
        for (i, a) in page.iter().enumerate() {
            for b in &page[i + 1..] {
                assert_ne!((a.column, a.row), (b.column, b.row), "{} {}", a.label, b.label);
            }
        }
    }
    for dir in [
        JogDir::XPlus,
        JogDir::XMinus,
        JogDir::YPlus,
        JogDir::YMinus,
        JogDir::ZPlus,
        JogDir::ZMinus,
    ] {
        assert!(build_jog_pad().iter().any(|b| b.press == Press::Jog(dir)));
    }
}
