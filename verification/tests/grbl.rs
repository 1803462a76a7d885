//! What the machine says, and jogging it.
use larris::binary64::Real;
use larris::grbl::{
    alarm_description, alarm_message, error_description, error_message, jog_step_at, GrblLine,
    GrblStatus, JogDir, MachineState, Pos3, JOG_STEPS,
};
use larris::message::{Message, Piece, Quantity};

fn num(v: f64) -> Real {
    Real { bits: v.to_bits() }
}

fn exact(v: f64) -> Quantity {
    Quantity::Exact(num(v))
}

fn amount(q: &Quantity) -> f64 {
    match q {
        Quantity::Exact(r) => f64::from_bits(r.bits),
        Quantity::Written(s) => s.parse().unwrap(),
        Quantity::Minus(a, b) => amount(a) - amount(b),
    }
}

fn shown(m: &Message) -> String {
    let mut out = String::new();
    for p in &m.pieces {
        match p {
            Piece::Plain(s) => out += s,
            Piece::Number { quantity, places, width } => {
                let (w, p) = (*width as usize, *places as usize);
                out += &format!("{:>w$.p$}", amount(quantity));
            }
        }
    }
    out
}

fn status(line: &str) -> GrblStatus {
    match GrblLine::parse(line) {
        GrblLine::Status(st) => st,
        other => panic!("expected Status, got {other:?}"),
    }
}

#[test]
fn parse_idle_mpos() {
    let line = "<Idle|MPos:0.000,0.000,0.000|FS:0,0|WCO:0.000,0.000,0.000>";
    let parsed = GrblLine::parse(line);
    match parsed {
        GrblLine::Status(st) => {
            assert_eq!(st.state, MachineState::Idle);
            let mp = st.mpos.as_ref().unwrap();
            assert!((amount(&mp.x) - 0.0).abs() < 1e-9);
            assert!((amount(&mp.y) - 0.0).abs() < 1e-9);
            let wp = st.work_pos().unwrap();
            assert!((amount(&wp.x) - 0.0).abs() < 1e-9);
            assert_eq!(amount(&st.feed.unwrap()) as u32, 0);
            assert_eq!(amount(&st.speed.unwrap()) as u32, 0);
        }
        other => panic!("expected Status, got {other:?}"),
    }
}

#[test]
fn parse_run_with_wpos_and_feed() {
    let line = "<Run|WPos:10.250,-3.500,0.000|FS:3000,500>";
    let parsed = GrblLine::parse(line);
    match parsed {
        GrblLine::Status(st) => {
            assert_eq!(st.state, MachineState::Run);
            let wp = st.wpos.unwrap();
            assert!((amount(&wp.x) - 10.25).abs() < 1e-6);
            assert!((amount(&wp.y) - -3.5).abs() < 1e-6);
            assert!((amount(&st.feed.unwrap()) - 3000.0).abs() < 1e-6);
            assert!((amount(&st.speed.unwrap()) - 500.0).abs() < 1e-6);
        }
        other => panic!("expected Status, got {other:?}"),
    }
}

#[test]
fn parse_alarm_state() {
    let line = "<Alarm|MPos:0.000,0.000,0.000|FS:0,0>";
    let parsed = GrblLine::parse(line);
    match parsed {
        GrblLine::Status(st) => {
            assert!(st.state.is_alarm());
        }
        other => panic!("expected Status, got {other:?}"),
    }
}

#[test]
fn parse_hold_with_subcode() {
    let line = "<Hold:1|MPos:5.000,5.000,0.000|FS:100,0>";
    let parsed = GrblLine::parse(line);
    match parsed {
        GrblLine::Status(st) => {
            assert_eq!(st.state, MachineState::Hold(1));
        }
        other => panic!("{other:?}"),
    }
}

#[test]
fn parse_ok() {
    assert_eq!(GrblLine::parse("ok"), GrblLine::Okay);
}

#[test]
fn parse_error() {
    let parsed = GrblLine::parse("error:22");
    assert_eq!(parsed, GrblLine::Error(22));
}

#[test]
fn parse_alarm_line() {
    assert_eq!(GrblLine::parse("ALARM:1"), GrblLine::Alarm(1));
}

#[test]
fn parse_msg() {
    let parsed = GrblLine::parse("[MSG:Reset to continue]");
    assert_eq!(parsed, GrblLine::Msg("Reset to continue".to_owned()));
}

#[test]
fn parse_gc_state() {
    let parsed = GrblLine::parse("[GC:G0 G54 G17 G21 G90 G94 M5 M9 T0 F0 S0]");
    match parsed {
        GrblLine::GcState(s) => {
            assert!(s.contains("G0"));
        }
        other => panic!("{other:?}"),
    }
}

#[test]
fn parse_probe() {
    let parsed = GrblLine::parse("[PRB:0.000,0.000,-1.500:1]");
    match parsed {
        GrblLine::Probe { pos, success } => {
            assert!((amount(&pos.z) - -1.5).abs() < 1e-6);
            assert!(success);
        }
        other => panic!("{other:?}"),
    }
}

#[test]
fn parse_pins() {
    let line = "<Idle|MPos:0.000,0.000,0.000|Pn:XYZ|FS:0,0>";
    match GrblLine::parse(line) {
        GrblLine::Status(st) => {
            let pins = st.pins.unwrap();
            assert!(pins.x_limit);
            assert!(pins.y_limit);
            assert!(pins.z_limit);
            assert!(!pins.probe);
        }
        other => panic!("{other:?}"),
    }
}

#[test]
fn parse_overrides() {
    let line = "<Idle|MPos:0.000,0.000,0.000|FS:0,0|Ov:110,100,90>";
    match GrblLine::parse(line) {
        GrblLine::Status(st) => {
            let ov = st.overrides.unwrap();
            assert_eq!(ov.feed, 110);
            assert_eq!(ov.rapid, 100);
            assert_eq!(ov.spindle, 90);
        }
        other => panic!("{other:?}"),
    }
}

#[test]
fn parse_buffer() {
    let line = "<Idle|MPos:0.000,0.000,0.000|FS:0,0|Bf:15,127>";
    match GrblLine::parse(line) {
        GrblLine::Status(st) => {
            let bf = st.buffer.unwrap();
            assert_eq!(bf.available_blocks, 15);
            assert_eq!(bf.available_bytes, 127);
        }
        other => panic!("{other:?}"),
    }
}

#[test]
fn parse_banner() {
    let parsed = GrblLine::parse("Grbl 1.1f ['$' for help]");
    match parsed {
        GrblLine::Banner(b) => assert!(b.contains("Grbl")),
        other => panic!("{other:?}"),
    }
}

#[test]
fn parse_setting_echo() {
    let parsed = GrblLine::parse("$32=1");
    match parsed {
        GrblLine::Setting { key, value } => {
            assert_eq!(key, "$32");
            assert_eq!(value, "1");
        }
        other => panic!("{other:?}"),
    }
}

#[test]
fn jog_command_positive_x() {
    let cmd = JogDir::XPlus.to_command(num(10.0), num(3000.0));
    assert_eq!(shown(&cmd), "$J=G21G91X10.0000F3000");
}

#[test]
fn jog_command_negative_y() {
    let cmd = JogDir::YMinus.to_command(num(0.1), num(500.0));
    assert_eq!(shown(&cmd), "$J=G21G91Y-0.1000F500");
}

#[test]
fn work_pos_derived_from_mpos_wco() {
    let st = GrblStatus {
        state: MachineState::Idle,
        mpos: Some(Pos3 { x: exact(10.0), y: exact(20.0), z: exact(0.0) }),
        wpos: None,
        wco: Some(Pos3 { x: exact(5.0), y: exact(10.0), z: exact(0.0) }),
        feed: None,
        speed: None,
        pins: None,
        overrides: None,
        buffer: None,
        line_number: None,
    };
    let wp = st.work_pos().unwrap();
    assert!((amount(&wp.x) - 5.0).abs() < 1e-9);
    assert!((amount(&wp.y) - 10.0).abs() < 1e-9);
}

#[test]
fn error_descriptions_are_non_empty() {
    for code in [1u16, 5, 9, 16, 22] {
        let desc = error_description(code);
        assert!(!desc.is_empty(), "empty description for error {code}");
    }
}

#[test]
fn alarm_descriptions_are_non_empty() {
    for code in 1u16..=9 {
        let desc = alarm_description(code);
        assert!(!desc.is_empty(), "empty description for alarm {code}");
    }
}

#[test]
fn states_are_read_with_their_codes() {
    for (text, state) in [
        ("Idle", MachineState::Idle),
        ("Run", MachineState::Run),
        ("Hold:0", MachineState::Hold(0)),
        ("Jog", MachineState::Jog),
        ("Alarm", MachineState::Alarm),
        ("Door:3", MachineState::Door(3)),
        ("Check", MachineState::Check),
        ("Home", MachineState::Home),
        ("Sleep", MachineState::Sleep),
    ] {
        assert_eq!(MachineState::parse(text), state, "{text}");
    }
    assert_eq!(MachineState::parse("Weird").label(), "Weird");
    assert!(MachineState::parse("Idle").is_ready());
    assert!(!MachineState::parse("Alarm").is_ready());
}

#[test]
fn a_status_may_leave_all_fields_out() {
    let st = status("<Idle>");
    assert_eq!(st.state, MachineState::Idle);
    assert!(st.mpos.is_none() && st.wpos.is_none() && st.feed.is_none());
    assert!(st.work_pos().is_none());
    let st = status("<Run|F:1500|Ln:42|Junk:1|MPos:1>");
    assert_eq!(amount(&st.feed.unwrap()), 1500.0);
    assert_eq!(st.line_number, Some(42));
    assert!(st.mpos.is_none());
}

#[test]
fn a_reported_work_position_comes_before_a_derived_one() {
    let st = status("<Idle|MPos:9,9,9|WPos:1,2,3|WCO:5,5,5>");
    let wp = st.work_pos().unwrap();
    assert_eq!((amount(&wp.x), amount(&wp.y), amount(&wp.z)), (1.0, 2.0, 3.0));
    let st = status("<Idle|MPos:9,8,7|WCO:0.5,1,2>");
    let wp = st.work_pos().unwrap();
    assert_eq!((amount(&wp.x), amount(&wp.y), amount(&wp.z)), (8.5, 7.0, 5.0));
    let wp = status("<Idle|MPos:9,8,7>").work_pos().unwrap();
    assert_eq!((amount(&wp.x), amount(&wp.y), amount(&wp.z)), (9.0, 8.0, 7.0));
}

#[test]
fn other_lines_are_kept_as_they_are() {
    assert_eq!(GrblLine::parse("hello"), GrblLine::Other("hello".to_owned()));
    assert_eq!(GrblLine::parse("  ok  "), GrblLine::Okay);
    assert_eq!(GrblLine::parse("[HLP:$$ $#]"), GrblLine::Help("$$ $#".to_owned()));
    assert_eq!(GrblLine::parse("error:no"), GrblLine::Error(0));
}

#[test]
fn summaries_show_code_and_description() {
    assert_eq!(
        shown(&error_message(22)),
        format!("error:22 – {}", error_description(22))
    );
    assert_eq!(shown(&alarm_message(1)), format!("ALARM:1 – {}", alarm_description(1)));
    assert_eq!(shown(&GrblLine::parse("$32=1").summary()), "$32=1");
    assert_eq!(shown(&GrblLine::parse("ok").summary()), "ok");
}

#[test]
fn positions_are_shown_with_three_decimals() {
    let p = Pos3::parse("1,2.5,-3").unwrap();
    let text = shown(&p.shown());
    assert!(text.contains("2.500") && text.contains("-3.000"), "{text}");
    assert!(Pos3::parse("1").is_none());
    assert!(Pos3::parse("1,x,2").is_none());
    let flat = Pos3::parse("1,2").unwrap();
    assert_eq!(shown(&flat.shown()), "X   1.000  Y   2.000  Z   0.000");
}

#[test]
fn jog_steps_grow() {
    let steps: Vec<f64> = (0..JOG_STEPS).map(|i| f64::from_bits(jog_step_at(i).bits)).collect();
    assert_eq!(steps, [0.01, 0.1, 1.0, 10.0, 100.0]);
}

#[test]
fn every_direction_moves_its_axis() {
    for (dir, text) in [
        (JogDir::XPlus, "$J=G21G91X1.0000F100"),
        (JogDir::XMinus, "$J=G21G91X-1.0000F100"),
        (JogDir::YPlus, "$J=G21G91Y1.0000F100"),
        (JogDir::YMinus, "$J=G21G91Y-1.0000F100"),
        (JogDir::ZPlus, "$J=G21G91Z1.0000F100"),
        (JogDir::ZMinus, "$J=G21G91Z-1.0000F100"),
    ] {
        assert_eq!(shown(&dir.to_command(num(1.0), num(100.0))), text);
    }
}
