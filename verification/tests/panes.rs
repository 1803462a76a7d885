//! What is on the screen.
use larris::actions::{apply_line, finish_connect};
use larris::app::{
    ActiveTab, App, Axis, ControlFocus, ConversionErrorPopup, ConversionStatus, GCodeFocus,
};
use larris::binary64::Real;
use larris::connect_pane::{
    console_title, console_window, dropdown_area, input_title, ports_in_use, render_baud_dropdown,
    render_console, render_control_block, render_input, render_port_list,
};
use larris::control_pane::{
    pane_in_use, render_ctrl_jog, render_ctrl_overrides, render_ctrl_position,
    render_ctrl_settings, render_ctrl_status,
};
use larris::frame_pane::{
    brand, help_area, popup_area, popup_hint, render_conversion_error_popup, render_help_overlay,
    render_status_bar, render_tab_bar,
};
use larris::gcode_pane::{
    controls_height, gcode_line_colour, layer_is_marked, layer_window, layers_hint, layers_title,
    path_hint, path_title, render_gcode_controls, render_gcode_preview_panel, render_gcode_text,
    render_layer, render_layer_panel, render_svg_preview_panel, source_title, ImageSize,
};
use larris::layers::{LayerMode, SvgLayerInfo};
use larris::message::{Message, Piece, Quantity};
use larris::settings_pane::{
    field_description, render_settings_fields, render_settings_help, settings_hint,
};
use larris::view::{centred, Area, Row, Rows, Tone};

fn num(v: f64) -> Real {
    Real { bits: v.to_bits() }
}

fn amount(q: &Quantity) -> f64 {
    match q {
        Quantity::Exact(r) => f64::from_bits(r.bits),
        Quantity::Written(s) => s.parse().unwrap(),
        Quantity::Minus(a, b) => amount(a) - amount(b),
    }
}

fn shown(m: &Message) -> String {
    let mut out = String::new();
    for p in &m.pieces {
        match p {
            Piece::Plain(s) => out += s,
            Piece::Number { quantity, places, width } => {
                let (w, p) = (*width as usize, *places as usize);
                out += &format!("{:>w$.p$}", amount(quantity));
            }
        }
    }
    out
}

/// A state with an open connection, after homing was asked for.
fn connected() -> App {
    let mut app = App::new();
    finish_connect(&mut app, "/dev/ttyUSB0".to_owned(), Ok(()));
    app
}

fn line(row: &Row) -> String {
    row.spans.iter().map(|s| shown(&s.text)).collect()
}

fn lines(rows: &Rows) -> Vec<String> {
    rows.rows.iter().map(line).collect()
}

#[test]
fn the_tab_bar_marks_the_active_tab() {
    let mut app = App::new();
    app.screen.active_tab = ActiveTab::GCode;
    let (row, place) = render_tab_bar(&app);
    assert_eq!(place, 2);
    assert_eq!(row.spans.len(), 5);
    let marked: Vec<usize> = (0..5).filter(|i| row.spans[*i].tone != row.spans[0].tone).collect();
    assert_eq!(marked, [2]);
    assert!(shown(&row.spans[2].text).contains("GCode"));
    assert_eq!(line(&brand()), " Larris ");
}

#[test]
fn the_status_bar_shows_message_and_connection() {
    let mut app = App::new();
    let (_, right) = render_status_bar(&app);
    assert_eq!(line(&right), " ○ Disconnected ");
    app = connected();
    app.set_status(Message::text("busy"), None);
    let (left, right) = render_status_bar(&app);
    assert_eq!(line(&left), " busy");
    assert_eq!(line(&right), " ● /dev/ttyUSB0 @ 115200 ");
}

#[test]
fn areas_are_centred_and_stay_inside() {
    let screen = Area { x: 0, y: 0, width: 100, height: 40 };
    assert_eq!(centred(60, 20, screen), Area { x: 20, y: 10, width: 60, height: 20 });
    let small = Area { x: 3, y: 4, width: 10, height: 5 };
    assert_eq!(centred(60, 20, small), small);
    assert_eq!(popup_area(4, screen), Area { x: 19, y: 15, width: 62, height: 10 });
    assert_eq!(help_area(screen).height, 40);
}

#[test]
fn a_popup_has_a_title_and_a_hint() {
    let popup = ConversionErrorPopup { title: "Bad".to_owned(), body: Message::text("x") };
    assert_eq!(line(&render_conversion_error_popup(&popup)), " ✗ Bad ");
    assert_eq!(line(&popup_hint()), " Press Enter, Esc or Space to dismiss ");
}

#[test]
fn the_help_names_the_keys() {
    let help = lines(&render_help_overlay()).join("\n");
    for word in ["F1", "Tab", "Ctrl", "Enter", "Esc", "PgUp"] {
        assert!(help.contains(word), "{word}");
    }
    assert!(help.contains("  m            Cycle render mode: Default → Outline → Fill"));
    assert!(help.contains("  y          Edit workpiece Y offset (mm) inline"));
}

#[test]
fn ports_are_listed_with_the_connected_one_marked() {
    let mut app = App::new();
    assert!(ports_in_use(&app));
    assert_eq!(lines(&render_port_list(&app))[1], "  No serial ports found");
    app = connected();
    assert!(!ports_in_use(&app));
    app.ports.port_list = vec!["/dev/ttyS0".to_owned(), "/dev/ttyUSB0".to_owned()];
    let rows = render_port_list(&app);
    assert_eq!(lines(&rows), ["  /dev/ttyS0", "● /dev/ttyUSB0"]);
    assert_eq!(rows.rows[0].spans[1].tone, Tone::Accent);
    assert_eq!(rows.rows[1].spans[1].tone, Tone::Title);
    assert_eq!(lines(&render_control_block(&app))[0], "● CONNECTED");
    assert_eq!(lines(&render_control_block(&app))[1], "  Baud: 115200 ▼");
}

#[test]
fn the_console_shows_its_end_unless_scrolled() {
    let mut app = App::new();
    for i in 0..10 {
        app.push_received(Message::text(&i.to_string()));
    }
    assert_eq!(lines(&render_console(&app, 3)), ["◀ 7", "◀ 8", "◀ 9"]);
    assert_eq!(line(&console_title(&app)), " Console  ↓FOLLOW ");
    app.console_scroll_up();
    app.console_scroll_up();
    assert_eq!(lines(&render_console(&app, 3)), ["◀ 5", "◀ 6", "◀ 7"]);
    assert_eq!(line(&console_title(&app)), " Console  SCROLL ");
    let w = console_window(&app, 3);
    assert_eq!((w.start, w.end, w.bar), (5, 8, Some((8, 5))));
    assert_eq!(console_window(&app, 20).bar, None);
}

#[test]
fn the_command_line_shows_its_cursor() {
    let mut app = connected();
    assert_eq!(line(&input_title(&app)), " Command (Enter to send) ");
    for c in "aäb".chars() {
        app.input_insert_char(c);
    }
    app.input_cursor_left();
    app.input_cursor_left();
    let row = render_input(&app);
    let parts: Vec<String> = row.spans.iter().map(|s| shown(&s.text)).collect();
    assert_eq!(parts, ["a", "ä", "b"]);
    assert_eq!(row.spans[1].tone, Tone::Marked);
    app.input_cursor_end();
    let row = render_input(&app);
    let parts: Vec<String> = row.spans.iter().map(|s| shown(&s.text)).collect();
    assert_eq!(parts, ["aäb", " ", ""]);
    assert_eq!(line(&input_title(&App::new())), " Command (not connected) ");
}

#[test]
fn the_list_of_baud_rates_drops_down_on_the_screen() {
    let app = App::new();
    assert_eq!(lines(&render_baud_dropdown(&app)), ["▶ 115200", "  56000"]);
    assert_eq!(dropdown_area(&app, 80, 24), Area { x: 2, y: 10, width: 20, height: 4 });
    let tiny = dropdown_area(&app, 10, 3);
    assert_eq!((tiny.y, tiny.width, tiny.height), (0, 6, 3));
}

#[test]
fn the_machine_is_shown_as_reported() {
    let mut app = connected();
    assert!(pane_in_use(&app, ControlFocus::Jog) == (app.screen.active_tab == ActiveTab::Control));
    assert_eq!(lines(&render_ctrl_position(&app).work)[1], "  ---.--- mm");
    apply_line(&mut app, "<Idle|MPos:10,20,0|WCO:1,2,0|FS:500,30|Bf:15,128|Ln:7|Pn:XP>");
    let rows = lines(&render_ctrl_position(&app).work);
    assert!(rows[1].contains("9.000") && rows[2].contains("18.000"), "{rows:?}");
    let rows = lines(&render_ctrl_status(&app));
    assert!(rows[0].contains("Idle"), "{rows:?}");
    assert!(rows.iter().any(|r| r.contains("500")), "{rows:?}");
    let rows = lines(&render_ctrl_position(&app).machine);
    assert!(rows[0].contains("10.000"), "{rows:?}");
    apply_line(&mut app, "[PRB:1,2,3:1]");
    assert!(lines(&render_ctrl_position(&app).machine)[2].ends_with(" OK"));
    assert_eq!(render_ctrl_position(&app).hints.rows.len(), 2);
}

#[test]
fn jog_and_overrides_are_shown() {
    let mut app = connected();
    let rows = lines(&render_ctrl_jog(&app));
    assert!(rows[0].starts_with("  Step: 1"), "{rows:?}");
    assert_eq!(rows[2], "  Feed: 3000 mm/min");
    app.machine.override_feed = 200;
    let rows = lines(&render_ctrl_overrides(&app, 42));
    assert!(rows[1].contains("200%"), "{rows:?}");
    assert_eq!(rows.len(), 12);
}

#[test]
fn settings_of_the_controller_are_listed() {
    let mut app = connected();
    assert_eq!(lines(&render_ctrl_settings(&app))[1], "  No settings received yet.");
    apply_line(&mut app, "$30=1000");
    assert_eq!(lines(&render_ctrl_settings(&app)), ["$30    = 1000"]);
}

const SIZE: ImageSize = ImageSize {
    width: Real { bits: 0x3fe0_0000_0000_0000 },
    height: Real { bits: 0x3fd0_0000_0000_0000 },
    right: Real { bits: 0x4062_c000_0000_0000 },
    top: Real { bits: 0x3fd0_0000_0000_0000 },
};

#[test]
fn the_gcode_controls_show_file_and_progress() {
    let mut app = App::new();
    let rows = lines(&render_gcode_controls(&app, None, SIZE));
    assert_eq!(rows[0], "  File:   <no file loaded>");
    assert_eq!(controls_height(&app), 7);
    app.work.gcode_text = Some("a\nb\n".to_owned());
    app.work.conversion_status = ConversionStatus::Okay;
    app.work.is_image_source = true;
    app.work.image_dimensions = Some((4, 3));
    let rows = lines(&render_gcode_controls(&app, Some("x.png"), SIZE));
    assert_eq!(rows[0], "  File:   x.png");
    assert!(rows[1].ends_with("  (2 lines)"), "{rows:?}");
    assert!(rows[2].contains("Beam:0.100mm/px  Power:"), "{rows:?}");
    assert_eq!(rows[3], "  Image:  4×3px → 0.5×0.2mm  ✓ fits in 150×150mm");
    assert_eq!(controls_height(&app), 8);
    let beyond = ImageSize { right: num(150.5), ..SIZE };
    let rows = render_gcode_controls(&app, None, beyond);
    assert!(lines(&rows)[3].contains("⚠ fits in"));
    assert_eq!(rows.rows[3].spans[0].tone, Tone::Bad);
    app.stream.stream_sent = usize::MAX;
    assert_eq!(render_gcode_controls(&app, None, SIZE).rows.len(), 6);
    app.stream.is_streaming = true;
    app.stream.stream_sent = 1;
    app.stream.stream_total = 2;
    let rows = lines(&render_gcode_controls(&app, Some("x.png"), SIZE)).join("\n");
    let bar = format!("{}{} 1/2 (50%)  a:abort", "█".repeat(10), "░".repeat(10));
    assert!(rows.ends_with(&bar), "{rows}");
}

#[test]
fn the_offset_is_shown_or_edited() {
    let mut app = App::new();
    let rows = lines(&render_gcode_controls(&app, None, SIZE));
    assert_eq!(rows[3], "  Offset:  X=0.0mm  Y=0.0mm   x: edit X   y: edit Y");
    assert!(rows[4].contains("l:layers  x/y:offset  ↑↓/PgUp/Dn:scroll"));
    app.begin_offset_edit(Axis::Y, "1x".to_owned());
    assert_eq!(
        lines(&render_gcode_controls(&app, None, SIZE))[3],
        "  Offset Y: [ 1x_ ]  Enter=confirm  Esc=cancel"
    );
    assert!(!app.commit_offset_edit(Err("no number".to_owned())));
    let rows = render_gcode_controls(&app, None, SIZE);
    assert!(lines(&rows)[3].ends_with("Esc=cancel  ← no number"));
    assert_eq!(rows.rows[3].spans[2].tone, Tone::Bad);
    assert!(app.commit_offset_edit(Ok(num(2.5))) && app.offset.is_none());
    assert_eq!(app.config.machine_settings.origin_y, num(2.5));
    assert_eq!(app.config.machine_settings.origin_x, num(0.0));
}

#[test]
fn gcode_is_numbered_and_coloured() {
    let mut app = App::new();
    app.work.gcode_text = Some("G0 X1\nG1 X2\nM5\nG2 X1\n; note\nG90\n".to_owned());
    app.work.gcode_scroll = 1;
    let (rows, bar) = render_gcode_text(&app, 2);
    assert_eq!(lines(&rows), ["    2 G1 X2", "    3 M5"]);
    assert!(bar.is_some());
    let tones: Vec<Tone> = ["g0", "G1 X2", "M5", "G3 X1", "  ; note", "G90"]
        .iter()
        .map(|l| gcode_line_colour(l))
        .collect();
    assert_eq!(
        tones,
        [Tone::Info, Tone::Good, Tone::Warn, Tone::Accent, Tone::Info, Tone::Title]
    );
}

fn layered(n: usize) -> App {
    let mut app = App::new();
    let layers = (0..n)
        .map(|i| SvgLayerInfo {
            label: format!("layer {i}"),
            key: i.to_string(),
            svg_feedrate: Some(num(100.0)),
            svg_power: None,
            svg_passes: None,
        })
        .collect();
    app.load_layers_from_svg(Some(layers));
    app
}

#[test]
fn the_selected_layer_is_in_view() {
    let mut app = layered(5);
    app.screen.gcode_focus = GCodeFocus::Layers;
    for i in 0..5 {
        app.panel.layer_selected = i;
        let w = layer_window(&app, 8);
        assert!(w.start <= i && i < w.end, "{i}");
        assert!(layer_is_marked(&app, i));
    }
    app.panel.layer_selected = 0;
    let rows = lines(&render_layer(&app, 0, 30, false));
    assert_eq!(rows[0], "▶ layer 0");
    assert_eq!(rows.len(), 5);
    assert!(rows[1].contains("100"), "{rows:?}");
    assert_eq!(rows[4], "  Mod: Default");
    assert_eq!(lines(&render_layer(&app, 1, 9, false))[0], "  layer");
    let (none, _) = render_layer_panel(&App::new(), 30, 11, false);
    assert_eq!(lines(&none), ["No layers detected."]);
    let (rows, w) = render_layer_panel(&app, 30, 11, false);
    assert_eq!((w.start, w.end, w.bar), (0, 2, Some((4, 0))));
    let shown: Vec<String> = lines(&rows);
    assert_eq!(shown.len(), 10);
    assert_eq!((shown[0].as_str(), shown[5].as_str()), ("▶ layer 0", "  layer 1"));
    let (_, w) = render_layer_panel(&app, 30, 20, false);
    assert_eq!(w.end - w.start, 4);
    app.layer_cycle_mode();
    let mode = &render_layer(&app, 0, 30, false).rows[4];
    assert_eq!((line(mode).as_str(), mode.spans[1].tone), ("  Mod: Outline", Tone::Good));
    app.layer_cycle_mode();
    assert_eq!(app.panel.layers[0].mode, LayerMode::Fill);
    assert_eq!(app.panel.layers[1].mode, LayerMode::Default);
    app.layer_clear_all();
    assert_eq!(app.panel.layers[0].mode_label(), "Default");
    assert_eq!(line(&layers_title(&app)), " Layers [active] ");
    assert_eq!(line(&layers_hint(&app)), "f:spd  p:pwr  n:pass  m:mode  r:reset  Esc:back");
}

#[test]
fn the_preview_says_what_is_missing() {
    let mut app = App::new();
    assert_eq!(line(&source_title(&app)), " Source SVG ");
    assert_eq!(
        lines(&render_svg_preview_panel(&app))[1],
        "  Load an SVG or PNG (GCode tab → 'o')"
    );
    assert_eq!(
        lines(&render_gcode_preview_panel(&app))[1],
        "  No GCode yet. Convert an SVG first."
    );
    app.work.gcode_text = Some(String::new());
    app.preview.show_travel_lines = false;
    assert_eq!(line(&path_title(&app)), " GCode Toolpath [travel: OFF] ");
    assert_eq!(line(&path_hint(&app)), "  t: show travel  p: re-render");
    assert_eq!(
        lines(&render_gcode_preview_panel(&app))[1],
        "  Press 'p' to render toolpath preview."
    );
}

#[test]
fn the_selected_setting_is_in_view() {
    let mut app = App::new();
    for i in 0..15 {
        app.config.settings_selected = i;
        let rows = lines(&render_settings_fields(&app, 6));
        let shown = rows.iter().take(6).any(|r| {
            r.contains(larris::settings::MachineSettings::FIELD_NAMES[i])
        });
        assert!(shown, "{i}: {rows:?}");
    }
    app.config.settings_edit_error = Some("no".to_owned());
    let rows = lines(&render_settings_fields(&app, 20));
    assert_eq!(rows.last().unwrap(), "  ✗ no");
    assert!(line(&settings_hint(&app)).contains("Enter/e:edit"));
    app.config.settings_selected = 1;
    assert_eq!(
        render_settings_help(&app),
        field_description(1).lines().collect::<Vec<_>>()
    );
}
