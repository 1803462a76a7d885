//! Sessions: connecting, moving the machine, converting and streaming.
use larris::actions::{
    actor_vanished, apply_line, apply_serial_event, apply_stream_progress, connect_checked,
    do_abort_stream, do_connect, do_convert, do_disconnect, do_frame_job, do_home, do_jog,
    do_open_svg, do_poll_status, do_refresh_ports, do_render_preview, do_send_gcode,
    drain_serial_events, finish_connect, finish_convert, finish_render, finish_save, greet,
    is_image_file, load_file, save_gcode_to,
    send_realtime, send_serial, tick_status_poll, Source,
};
use larris::app::{App, AppMode, BaudRate, ConversionStatus, FocusedPane};
use larris::binary64::Real;
use larris::converter::{ConversionError, ConversionFailure};
use larris::grbl::JogDir;
use larris::layers::SvgLayerInfo;
use larris::message::{Message, Piece, Quantity};
use larris::serial::SerialEvent;
use larris::talk::{Link, Outgoing, CONSOLE_MAX_LINES};
use larris::trace::{Segment, TracedLine};

fn num(v: f64) -> Real {
    Real { bits: v.to_bits() }
}

fn amount(q: &Quantity) -> f64 {
    match q {
        Quantity::Exact(r) => f64::from_bits(r.bits),
        Quantity::Written(s) => s.parse().unwrap(),
        Quantity::Minus(a, b) => amount(a) - amount(b),
    }
}

fn shown(m: &Message) -> String {
    let mut out = String::new();
    for p in &m.pieces {
        match p {
            Piece::Plain(s) => out += s,
            Piece::Number { quantity, places, width } => {
                let (w, p) = (*width as usize, *places as usize);
                out += &format!("{:>w$.p$}", amount(quantity));
            }
        }
    }
    out
}

fn console(app: &App) -> Vec<String> {
    app.talk.console_lines.iter().map(|l| shown(&l.text)).collect()
}

fn status(app: &App) -> String {
    app.talk.status_message.as_ref().map(shown).unwrap_or_default()
}

/// What was posted since the last look.
fn posted(app: &mut App) -> Vec<String> {
    app.talk
        .take_outbox()
        .iter()
        .map(|o| match o {
            Outgoing::Line(m) => shown(m),
            Outgoing::Byte(b) => format!("0x{b:02x}"),
            Outgoing::Stream(v) => format!("stream {v:?}"),
            Outgoing::AbortStream => "abort".to_owned(),
            Outgoing::Disconnect => "disconnect".to_owned(),
        })
        .collect()
}

/// A state with an open connection, after homing was asked for.
fn connected() -> App {
    let mut app = App::new();
    finish_connect(&mut app, "/dev/ttyUSB0".to_owned(), Ok(()));
    app.talk.take_outbox();
    app
}

#[test]
fn a_start_greets_and_lists_the_ports() {
    let mut app = App::new();
    let names = vec!["ttyUSB1".to_owned(), "null".to_owned(), "ttyUSB0".to_owned()];
    greet(&mut app, &names, false);
    assert_eq!(app.ports.port_list, ["/dev/ttyUSB0", "/dev/ttyUSB1"]);
    assert_eq!(
        console(&app),
        [
            "Found 2 serial port(s). Use ↑/↓ + Enter to connect.",
            "Welcome to Larris – GRBL Laser Terminal. Press '?' for help."
        ]
    );
    let mut app = App::new();
    greet(&mut app, &Vec::new(), true);
    assert_eq!(console(&app)[0], "No serial ports found. Click Refresh to scan.");
}

#[test]
fn refreshing_keeps_the_selection_in_the_list() {
    let mut app = App::new();
    let two = vec!["ttyS0".to_owned(), "ttyS1".to_owned()];
    do_refresh_ports(&mut app, &two);
    app.port_list_next();
    assert_eq!(app.selected_port().as_deref(), Some("/dev/ttyS1"));
    do_refresh_ports(&mut app, &vec!["ttyS0".to_owned()]);
    assert_eq!(app.ports.port_list_selected, Some(0));
    do_refresh_ports(&mut app, &Vec::new());
    assert_eq!(app.ports.port_list_selected, None);
    assert_eq!(console(&app)[2], "Port list refreshed – 0 port(s) found.");
}

#[test]
fn connecting_needs_a_port_that_passes() {
    let mut app = App::new();
    assert!(do_connect(&mut app).is_none());
    assert_eq!(console(&app), ["No port selected."]);
    let r = connect_checked(&mut app, "/dev/x", Err("Device /dev/x does not exist".to_owned()));
    assert_eq!(r, None);
    assert_eq!(console(&app)[1], "Invalid port: Device /dev/x does not exist");
    let r = connect_checked(&mut app, "/dev/x", Ok(()));
    assert_eq!(r, Some(BaudRate::B115200));
    assert_eq!(console(&app)[2], "Connecting to /dev/x at 115200 baud…");
    app.ports.port_list = vec!["/dev/null".to_owned()];
    assert_eq!(do_connect(&mut app), Some(("/dev/null".to_owned(), BaudRate::B115200)));
    finish_connect(&mut app, "/dev/null".to_owned(), Err("busy".to_owned()));
    assert_eq!(app.ports.mode, AppMode::Disconnected);
    assert_eq!(console(&app).last().unwrap(), "Failed to connect: busy");
}

#[test]
fn a_new_connection_homes_the_machine() {
    let mut app = App::new();
    finish_connect(&mut app, "/dev/ttyUSB0".to_owned(), Ok(()));
    assert_eq!(app.ports.mode, AppMode::Connected);
    assert_eq!(app.screen.focused, FocusedPane::CommandInput);
    assert_eq!(posted(&mut app), ["$H"]);
    assert_eq!(console(&app), ["Sending homing command ($H)…", "$H"]);
}

#[test]
fn disconnecting_tells_the_actor_and_the_user() {
    let mut app = connected();
    do_disconnect(&mut app);
    assert_eq!(app.ports.mode, AppMode::Disconnected);
    assert_eq!(app.screen.focused, FocusedPane::SerialList);
    assert!(matches!(app.talk.link, Link::Absent));
    assert_eq!(posted(&mut app), ["disconnect"]);
    assert_eq!(console(&app).last().unwrap(), "Disconnected from /dev/ttyUSB0.");
    let lines = console(&app).len();
    do_disconnect(&mut app);
    assert_eq!(console(&app).len(), lines);
}

#[test]
fn nothing_leaves_without_a_connection() {
    let mut app = App::new();
    do_home(&mut app);
    do_jog(&mut app, JogDir::XPlus);
    send_realtime(&mut app, 0x18);
    do_poll_status(&mut app);
    send_serial(&mut app, "$$".to_owned());
    do_send_gcode(&mut app);
    do_frame_job(&mut app, &Vec::new());
    tick_status_poll(&mut app);
    assert!(posted(&mut app).is_empty());
    assert_eq!(
        console(&app),
        [
            "Not connected – cannot home.",
            "Not connected – cannot jog.",
            "Not connected.",
            "Not connected – command not sent.",
            "Not connected – cannot stream GCode.",
            "Not connected – cannot frame job."
        ]
    );
}

#[test]
fn the_machine_is_jogged_by_the_chosen_step() {
    let mut app = connected();
    do_jog(&mut app, JogDir::YMinus);
    app.jog_step_larger();
    do_jog(&mut app, JogDir::ZPlus);
    assert_eq!(posted(&mut app), ["$J=G21G91Y-1.0000F3000", "$J=G21G91Z10.0000F3000"]);
    for _ in 0..9 {
        app.jog_step_smaller();
    }
    assert_eq!(app.machine.jog_step_idx, 0);
    for _ in 0..9 {
        app.jog_step_larger();
    }
    assert_eq!(app.machine.jog_step_idx, 4);
}

#[test]
fn the_status_is_polled_every_few_ticks() {
    let mut app = connected();
    for tick in 1..=8 {
        tick_status_poll(&mut app);
        let out = posted(&mut app);
        if tick % 4 == 0 {
            assert_eq!(out, ["0x3f"]);
        } else {
            assert!(out.is_empty());
        }
    }
    app.machine.status_poll_interval = 0;
    for _ in 0..9 {
        tick_status_poll(&mut app);
    }
    assert!(posted(&mut app).is_empty());
    do_poll_status(&mut app);
    send_realtime(&mut app, 0x21);
    assert_eq!(posted(&mut app), ["0x3f", "0x21"]);
}

#[test]
fn a_job_is_streamed_without_comments() {
    let mut app = connected();
    do_send_gcode(&mut app);
    assert_eq!(console(&app).last().unwrap(), "No GCode to send. Convert an SVG first.");
    app.work.gcode_text = Some("; nothing\n".to_owned());
    do_send_gcode(&mut app);
    assert_eq!(console(&app).last().unwrap(), "GCode is empty after filtering comments.");
    app.work.gcode_text = Some("G90 ; abs\n\n(c)\nG1 X1 S5\nM5\n".to_owned());
    do_send_gcode(&mut app);
    assert!(app.stream.is_streaming);
    assert_eq!(app.stream.stream_total, 3);
    assert_eq!(posted(&mut app), ["stream [\"G90\", \"G1 X1 S5\", \"M5\"]"]);
    do_send_gcode(&mut app);
    assert_eq!(
        console(&app).last().unwrap(),
        "Already streaming – abort the current stream first."
    );
    apply_stream_progress(&mut app, 2, 3);
    assert_eq!(status(&app), "Streaming GCode: 2/3 lines");
    do_abort_stream(&mut app);
    assert_eq!(posted(&mut app), ["abort"]);
    let more = apply_serial_event(
        &mut app,
        SerialEvent::StreamAborted { sent: 2, total: 3, reason: "Aborted by user".to_owned() },
    );
    assert!(more);
    assert!(!app.stream.is_streaming);
    assert_eq!(
        console(&app).last().unwrap(),
        "GCode stream aborted after 2/3 lines: Aborted by user"
    );
    do_abort_stream(&mut app);
    assert_eq!(status(&app), "No active stream to abort.");
}

#[test]
fn a_finished_stream_is_told() {
    let mut app = connected();
    app.stream.is_streaming = true;
    apply_serial_event(&mut app, SerialEvent::StreamDone { total: 7 });
    assert!(!app.stream.is_streaming);
    assert_eq!((app.stream.stream_sent, app.stream.stream_total), (7, 7));
    assert_eq!(console(&app).last().unwrap(), "GCode stream complete – 7 lines sent.");
    assert_eq!(status(&app), "Stream done: 7 lines");
}

#[test]
fn a_lost_actor_closes_the_connection() {
    let mut app = connected();
    let more = apply_serial_event(&mut app, SerialEvent::Disconnected(Some("gone".to_owned())));
    assert!(!more);
    assert_eq!(app.ports.mode, AppMode::Disconnected);
    assert_eq!(console(&app).last().unwrap(), "Disconnected: gone");
    let mut app = connected();
    apply_serial_event(&mut app, SerialEvent::Disconnected(None));
    assert_eq!(console(&app).last().unwrap(), "Disconnected from serial port.");
    let mut app = connected();
    actor_vanished(&mut app);
    assert_eq!(app.ports.mode, AppMode::Disconnected);
    assert_eq!(console(&app).last().unwrap(), "Serial actor disconnected unexpectedly.");
}

#[test]
fn a_dead_link_is_complained_about() {
    let mut app = connected();
    app.talk.lose("channel closed".to_owned());
    send_serial(&mut app, "$$".to_owned());
    assert!(posted(&mut app).is_empty());
    assert_eq!(console(&app).last().unwrap(), "Send failed: channel closed");
}

fn burnt(from: (f64, f64), to: (f64, f64)) -> TracedLine {
    TracedLine {
        motion: Some(Segment::Cut {
            from: (num(from.0), num(from.1)),
            to: (num(to.0), num(to.1)),
        }),
        s_own: Some(num(500.0)),
        s_raw: Some(num(500.0)),
    }
}

#[test]
fn a_job_is_framed_with_the_laser_off() {
    let mut app = connected();
    do_frame_job(&mut app, &Vec::new());
    assert_eq!(console(&app).last().unwrap(), "No GCode to frame. Convert a file first.");
    app.work.gcode_text = Some("G1 X10 Y5 S500".to_owned());
    do_frame_job(&mut app, &Vec::new());
    assert_eq!(
        console(&app).last().unwrap(),
        "No laser-on moves found in GCode – nothing to frame."
    );
    do_frame_job(&mut app, &vec![burnt((0.0, 0.0), (10.0, 5.0))]);
    assert_eq!(
        posted(&mut app),
        [
            "G90 G21",
            "G0 S0 F3000 X0.000 Y0.000",
            "G0 X10.000 Y0.000",
            "G0 X10.000 Y5.000",
            "G0 X0.000 Y5.000",
            "G0 X0.000 Y0.000"
        ]
    );
    assert_eq!(status(&app), "Framing: 10.0×5.0 mm at (0.0,0.0)");
}

#[test]
fn framing_waits_for_an_idle_machine() {
    let mut app = connected();
    app.work.gcode_text = Some("G1 X10 Y5 S500".to_owned());
    let lines = vec![burnt((0.0, 0.0), (10.0, 5.0))];
    apply_line(&mut app, "<Jog|MPos:0,0,0>");
    do_frame_job(&mut app, &lines);
    assert_eq!(posted(&mut app), ["0x85"]);
    assert_eq!(status(&app), "Jog cancelled – retry frame when Idle.");
    apply_line(&mut app, "<Run|MPos:0,0,0>");
    do_frame_job(&mut app, &lines);
    assert!(posted(&mut app).is_empty());
    assert_eq!(status(&app), "Machine not Idle (Run) – frame blocked.");
    apply_line(&mut app, "<Idle|MPos:0,0,0>");
    do_frame_job(&mut app, &lines);
    assert_eq!(posted(&mut app).len(), 6);
}

#[test]
fn lines_of_the_machine_change_the_state() {
    let mut app = connected();
    let before = console(&app).len();
    apply_line(&mut app, "<Idle|MPos:1,2,3|Ov:90,50,110>");
    assert_eq!(app.machine.override_feed, 90);
    assert_eq!(app.machine.override_rapid, 50);
    assert_eq!(app.machine.override_spindle, 110);
    assert!(app.machine.grbl_status.is_some());
    apply_line(&mut app, "$110=500");
    apply_line(&mut app, "$30=1000");
    apply_line(&mut app, "$110=600");
    assert_eq!(
        app.controller.grbl_settings,
        [("$30".to_owned(), "1000".to_owned()), ("$110".to_owned(), "600".to_owned())]
    );
    assert_eq!(console(&app).len(), before);
    apply_line(&mut app, "[GC:G0 G54]");
    assert_eq!(app.controller.gc_state.as_deref(), Some("G0 G54"));
    apply_line(&mut app, "[PRB:1,2,3:0]");
    assert!(!app.controller.last_probe.as_ref().unwrap().1);
    apply_line(&mut app, "error:9");
    apply_line(&mut app, "ok");
    let lines = console(&app);
    assert_eq!(lines[before], "[GC] G0 G54");
    assert_eq!(lines[before + 2], "error:9 – G-code lock");
    assert_eq!(lines[before + 3], "ok");
}

#[test]
fn images_are_told_by_their_extension() {
    for e in ["png", "JPG", "jpeg", "Bmp", "gif", "tiff", "tif", "webp"] {
        assert!(is_image_file(e), "{e}");
    }
    for e in ["", "svg", "pngx"] {
        assert!(!is_image_file(e), "{e}");
    }
}

fn layer(key: &str) -> SvgLayerInfo {
    SvgLayerInfo {
        label: key.to_owned(),
        key: key.to_owned(),
        svg_feedrate: None,
        svg_power: Some(num(2000.0)),
        svg_passes: None,
    }
}

#[test]
fn files_are_loaded_as_drawings_or_images() {
    let mut app = App::new();
    app.work.gcode_text = Some("G90".to_owned());
    load_file(
        &mut app,
        "a.svg".to_owned(),
        Source::Drawing(Some(vec![layer("x"), layer("y")])),
    );
    assert_eq!(app.work.svg_path.as_deref(), Some("a.svg"));
    assert!(app.work.gcode_text.is_none());
    assert_eq!(app.panel.layers.len(), 2);
    assert_eq!(app.panel.layers[0].power, Some(num(1000.0)));
    assert_eq!(status(&app), "SVG loaded – 2 layer(s) detected.");
    load_file(&mut app, "b.png".to_owned(), Source::Image(Ok((30, 20))));
    assert!(app.work.is_image_source);
    assert!(app.panel.layers.is_empty());
    assert_eq!(app.work.image_dimensions, Some((30, 20)));
    assert_eq!(status(&app), "Image loaded (30×20px). Press Convert to proceed.");
    load_file(&mut app, "c.png".to_owned(), Source::Image(Err("bad".to_owned())));
    assert!(console(&app).contains(&"Could not load image preview: bad".to_owned()));
    load_file(&mut app, "d.svg".to_owned(), Source::Unreadable);
    assert!(!app.work.is_image_source);
    assert_eq!(status(&app), "SVG loaded. Click Convert to proceed.");
    do_open_svg(&mut app, "e.svg".to_owned(), Source::Drawing(Some(vec![layer("x")])));
    assert_eq!(status(&app), "SVG loaded. Press 'c' to convert.");
    assert_eq!((app.panel.layers.len(), app.work.svg_path.as_deref()), (1, Some("e.svg")));
    assert!(console(&app).contains(&"Loaded SVG: e.svg".to_owned()));
}

#[test]
fn a_conversion_succeeds_or_says_why_not() {
    let mut app = App::new();
    assert!(do_convert(&mut app).is_none());
    assert_eq!(status(&app), "No file loaded.");
    app.work.svg_path = Some("a.svg".to_owned());
    assert_eq!(do_convert(&mut app).as_deref(), Some("a.svg"));
    assert!(matches!(app.work.conversion_status, ConversionStatus::Running));
    finish_convert(&mut app, Ok("G90\nM5\n".to_owned()));
    assert!(matches!(app.work.conversion_status, ConversionStatus::Okay));
    assert_eq!(app.work.gcode_text.as_deref(), Some("G90\nM5\n"));
    assert_eq!(status(&app), "Converted: 2 GCode lines.");
    finish_convert(&mut app, Err(ConversionFailure::Other("no".to_owned())));
    assert_eq!(status(&app), "Conversion failed: no");
    assert!(app.work.conversion_error_popup.is_none());
    let refused = ConversionError {
        title: "Job exceeds work area".to_owned(),
        body: Message::text("too wide"),
    };
    finish_convert(&mut app, Err(ConversionFailure::Refused(refused)));
    let popup = app.work.conversion_error_popup.as_ref().unwrap();
    assert_eq!(popup.title, "Job exceeds work area");
    assert_eq!(shown(&popup.body), "too wide");
    app.dismiss_conversion_error();
    assert!(app.work.conversion_error_popup.is_none());
}

#[test]
fn saving_and_drawing_need_gcode() {
    let mut app = App::new();
    assert!(save_gcode_to(&mut app).is_none());
    assert!(do_render_preview(&mut app).is_none());
    assert_eq!(status(&app), "No GCode to preview.");
    app.work.gcode_text = Some("G90".to_owned());
    assert_eq!(save_gcode_to(&mut app).as_deref(), Some("G90"));
    finish_save(&mut app, "a.gcode", Ok(()));
    assert_eq!(status(&app), "Saved: a.gcode");
    finish_save(&mut app, "a.gcode", Err("full".to_owned()));
    assert_eq!(status(&app), "Save failed: full");
    assert_eq!(do_render_preview(&mut app).as_deref(), Some("G90"));
    finish_render(&mut app, Ok(()));
    assert!(app.preview.has_gcode_preview);
    finish_render(&mut app, Err("no".to_owned()));
    assert_eq!(status(&app), "Preview failed: no");
}

#[test]
fn the_console_keeps_its_newest_lines() {
    let mut app = App::new();
    for i in 0..CONSOLE_MAX_LINES + 5 {
        app.push_info(Message::text(&i.to_string()));
    }
    let lines = console(&app);
    assert_eq!(lines.len(), CONSOLE_MAX_LINES);
    assert_eq!(lines[0], "5");
    assert_eq!(lines.last().unwrap(), "1004");
}

#[test]
fn a_status_message_lasts_its_ticks() {
    let mut app = App::new();
    app.set_status(Message::text("hello"), Some(2));
    app.tick_status();
    assert_eq!(status(&app), "hello");
    app.tick_status();
    app.tick_status();
    assert!(app.talk.status_message.is_none());
    app.set_status(Message::text("for good"), None);
    for _ in 0..100 {
        app.tick_status();
    }
    assert_eq!(status(&app), "for good");
}

fn type_in(app: &mut App, s: &str) {
    for c in s.chars() {
        app.input_insert_char(c);
    }
}

#[test]
fn the_command_line_is_edited_by_characters() {
    let mut app = App::new();
    type_in(&mut app, "äb€");
    app.input_cursor_left();
    app.input_insert_char('x');
    assert_eq!(app.input.buffer, "äbx€");
    app.input_delete_back();
    app.input_delete_forward();
    assert_eq!(app.input.buffer, "äb");
    app.input_cursor_home();
    app.input_delete_back();
    app.input_delete_forward();
    assert_eq!(app.input.buffer, "b");
    app.input_cursor_end();
    app.input_cursor_right();
    assert_eq!(app.input.cursor, 1);
    assert_eq!(app.input_submit(), "b");
    assert_eq!(app.input.buffer, "");
}

#[test]
fn commands_are_recalled_and_the_draft_is_kept() {
    let mut app = App::new();
    for c in ["$$", "$H"] {
        type_in(&mut app, c);
        app.input_submit();
    }
    type_in(&mut app, "dra");
    app.history_up();
    assert_eq!(app.input.buffer, "$H");
    app.history_up();
    app.history_up();
    assert_eq!(app.input.buffer, "$$");
    app.history_down();
    assert_eq!(app.input.buffer, "$H");
    app.history_down();
    assert_eq!(app.input.buffer, "dra");
}

#[test]
fn words_are_jumped_over() {
    let mut app = App::new();
    type_in(&mut app, "G1 X10  Y5");
    app.input.word_left();
    assert_eq!(app.input.cursor, 8);
    app.input.word_left();
    assert_eq!(app.input.cursor, 3);
    app.input.kill_to_end();
    assert_eq!(app.input.buffer, "G1 ");
    app.input.cursor_home();
    app.input.word_right();
    assert_eq!(app.input.cursor, 3);
    app.input.clear();
    assert_eq!(app.input.buffer, "");
}

#[test]
fn lists_wrap_around_at_their_ends() {
    let mut app = App::new();
    app.ports.port_list = vec!["/dev/a".to_owned(), "/dev/b".to_owned()];
    app.port_list_prev();
    assert_eq!(app.ports.port_list_selected, Some(1));
    app.port_list_next();
    assert_eq!(app.ports.port_list_selected, Some(0));
    app.baud_next();
    assert_eq!(app.selected_baud(), BaudRate::B56000);
    app.baud_next();
    assert_eq!(app.selected_baud(), BaudRate::B115200);
    app.baud_prev();
    assert_eq!(app.selected_baud(), BaudRate::B56000);
}

#[test]
fn gcode_is_scrolled_within_its_lines() {
    let mut app = App::new();
    assert_eq!(app.gcode_line_count(), 0);
    app.work.gcode_text = Some((0..30).map(|i| format!("N{i}\n")).collect());
    assert_eq!(app.gcode_line_count(), 30);
    app.gcode_scroll_page_down(20);
    app.gcode_scroll_page_down(20);
    assert_eq!(app.work.gcode_scroll, 29);
    app.gcode_scroll_up();
    assert_eq!(app.work.gcode_scroll, 28);
    app.gcode_scroll_page_up(100);
    assert_eq!(app.work.gcode_scroll, 0);
    app.gcode_scroll_bottom();
    app.gcode_scroll_down();
    assert_eq!(app.work.gcode_scroll, 29);
    app.gcode_scroll_top();
    assert_eq!(app.work.gcode_scroll, 0);
}

#[test]
fn settings_are_edited_in_place() {
    let mut app = App::new();
    app.config.settings_selected = 6;
    app.settings_begin_edit("3000".to_owned());
    assert_eq!(app.config.settings_edit_buf.as_deref(), Some("3000"));
    assert!(!app.settings_commit_edit(Err("invalid float literal".to_owned())));
    assert_eq!(app.config.settings_edit_error.as_deref(), Some("invalid float literal"));
    assert!(app.settings_commit_edit(Ok(num(2500.0))));
    assert_eq!(app.config.machine_settings.feedrate, num(2500.0));
    assert!(app.config.settings_edit_buf.is_none());
    app.config.settings_selected = 12;
    app.settings_toggle_bool();
    assert!(app.config.machine_settings.circular_interpolation);
    app.settings_toggle_bool();
    assert!(!app.config.machine_settings.circular_interpolation);
    app.settings_begin_edit("x".to_owned());
    app.settings_cancel_edit();
    assert!(app.config.settings_edit_buf.is_none());
}

#[test]
fn layer_overrides_are_edited_in_place() {
    let mut app = App::new();
    app.load_layers_from_svg(Some(vec![layer("x"), layer("y")]));
    app.layer_next();
    assert_eq!(app.panel.layer_selected, 1);
    app.layer_begin_edit(0, "900".to_owned());
    assert!(app.layer_commit_edit(Some(num(900.0))));
    assert_eq!(app.panel.layers[1].feedrate, Some(num(900.0)));
    app.layer_begin_edit(2, "0".to_owned());
    assert!(!app.layer_commit_edit(Some(num(0.0))));
    assert!(app.panel.layer_edit_error.is_some());
    app.layer_cancel_edit();
    assert!(app.panel.layer_edit_field.is_none());
    let map = app.layer_override_map();
    assert_eq!(map.len(), 2);
    app.layer_clear_all();
    assert_eq!(app.panel.layers[1].feedrate, None);
    app.layer_prev();
    assert_eq!(app.panel.layer_selected, 0);
    app.load_layers_from_svg(None);
    assert!(app.panel.layers.is_empty());
}

#[test]
fn waiting_events_are_taken_up_to_the_end_of_the_connection() {
    let info = |s: &str| SerialEvent::Info(s.to_owned());
    let mut app = connected();
    let events = vec![info("a"), info("b")].into();
    assert!(drain_serial_events(&mut app, events, false));
    assert_eq!(console(&app)[2..], ["a", "b"]);
    assert_eq!(app.ports.mode, AppMode::Connected);
    let events = vec![info("c"), SerialEvent::Disconnected(None), info("d")].into();
    assert!(!drain_serial_events(&mut app, events, true));
    assert_eq!(console(&app)[4..], ["c", "Disconnected from serial port."]);
    let mut app = connected();
    assert!(!drain_serial_events(&mut app, vec![info("e")].into(), true));
    assert_eq!(console(&app)[2..], ["e", "Serial actor disconnected unexpectedly."]);
    assert_eq!(app.ports.mode, AppMode::Disconnected);
}
