//! Ports, the stream and the serial actor.
use larris::serial::{
    actor_started, actor_stillborn, check_port_path, command_step, command_undelivered,
    discover_ports, flush_failed, frame, line_undelivered, read_step, streaming_step,
    validate_port_path, write_failed, ReadOutcome, SerialCommand, SerialEvent, StepOutcome,
    StreamState, WriterMsg,
};

#[test]
fn discover_returns_sorted_list() {
    let names: Vec<String> = ["ttyS1", "ttyACM0", "zero", "ttyS0", "rfcomm1", "ttyUSB10", "ttyUSB2"]
        .iter()
        .map(|s| s.to_string())
        .collect();
    let ports = discover_ports(&names);
    let mut sorted = ports.clone();
    sorted.sort();
    assert_eq!(ports, sorted);
}

#[test]
fn discovery_keeps_serial_names_only() {
    let names: Vec<String> =
        ["ttyUSB1", "null", "ttyS0", "rfcomm0", "ttyACM3", "tty", "ttyAMA0", "ttyUSB0", "ttyUSB0"]
            .iter()
            .map(|s| s.to_string())
            .collect();
    assert_eq!(
        discover_ports(&names),
        [
            "/dev/rfcomm0",
            "/dev/ttyACM3",
            "/dev/ttyAMA0",
            "/dev/ttyS0",
            "/dev/ttyUSB0",
            "/dev/ttyUSB0",
            "/dev/ttyUSB1"
        ]
    );
}

#[test]
fn validate_rejects_non_dev_paths() {
    assert!(validate_port_path("/tmp/fake").is_err());
    assert!(validate_port_path("ttyUSB0").is_err());
}

#[test]
fn validate_rejects_missing_device() {
    assert!(validate_port_path("/dev/ttyUSB_does_not_exist_xyz").is_err());
}

#[test]
fn validate_accepts_a_device_that_is_there() {
    assert_eq!(validate_port_path("/dev/null"), Ok(()));
    assert_eq!(
        check_port_path("/dev/x", false),
        Err("Device /dev/x does not exist".to_owned())
    );
    assert_eq!(check_port_path("x", true), Err("Port path must start with /dev/".to_owned()));
}

fn make_stream(lines: &[&str]) -> StreamState {
    StreamState {
        lines: lines.iter().map(|s| s.to_string()).collect(),
        next_idx: 1, // first line already in-flight
        sent: 0,
        abort: false,
    }
}

#[test]
fn step_non_ack_line_is_ignored() {
    let mut st = make_stream(&["G0 X0", "G1 X10 S500"]);
    let outcome = streaming_step(&mut st, "<Idle|MPos:0,0,0|FS:0,0>");
    assert_eq!(outcome, StepOutcome::NotAnAck);
    assert_eq!(st.sent, 0);
    assert_eq!(st.next_idx, 1);
}

#[test]
fn step_ok_on_single_line_stream_completes() {
    let mut st = make_stream(&["G0 X0"]);
    let outcome = streaming_step(&mut st, "ok");
    assert_eq!(outcome, StepOutcome::Done { total: 1 });
    assert_eq!(st.sent, 1);
}

#[test]
fn step_ok_advances_to_next_line() {
    let mut st = make_stream(&["G0 X0", "G1 X10 S500", "G0 X0"]);
    let outcome = streaming_step(&mut st, "ok");
    assert_eq!(outcome, StepOutcome::SendNext("G1 X10 S500".to_string()));
    assert_eq!(st.sent, 1);
    assert_eq!(st.next_idx, 2);
}

#[test]
fn step_ok_case_insensitive() {
    let mut st = make_stream(&["G0 X0"]);
    let outcome = streaming_step(&mut st, "OK");
    assert_eq!(outcome, StepOutcome::Done { total: 1 });
}

#[test]
fn step_full_sequence_all_oks() {
    let lines = &["G0 X0", "G1 X10 S500", "G0 X0"];
    let mut st = make_stream(lines);
    match streaming_step(&mut st, "ok") {
        StepOutcome::SendNext(l) => assert_eq!(l, "G1 X10 S500"),
        other => panic!("expected SendNext, got {other:?}"),
    }
    match streaming_step(&mut st, "ok") {
        StepOutcome::SendNext(l) => assert_eq!(l, "G0 X0"),
        other => panic!("expected SendNext, got {other:?}"),
    }
    match streaming_step(&mut st, "ok") {
        StepOutcome::Done { total } => assert_eq!(total, 3),
        other => panic!("expected Done, got {other:?}"),
    }
}

#[test]
fn step_error_response_aborts_immediately() {
    let mut st = make_stream(&["G0 X0", "G1 X10 S500", "G0 X0"]);
    let outcome = streaming_step(&mut st, "error:22");
    match outcome {
        StepOutcome::ErrorAbort { sent, total, reason } => {
            assert_eq!(sent, 1);
            assert_eq!(total, 3);
            assert!(reason.contains("error:22"), "reason: {reason}");
            assert_eq!(reason, "GRBL reported 'error:22' on line 1 of 3");
        }
        other => panic!("expected ErrorAbort, got {other:?}"),
    }
}

#[test]
fn step_error_is_case_insensitive() {
    let mut st = make_stream(&["G0 X0"]);
    let outcome = streaming_step(&mut st, "ERROR:5");
    assert!(
        matches!(outcome, StepOutcome::ErrorAbort { .. }),
        "expected ErrorAbort for uppercase ERROR:5, got {outcome:?}"
    );
}

#[test]
fn step_error_on_last_line_still_aborts() {
    let mut st = make_stream(&["G0 X0"]);
    let outcome = streaming_step(&mut st, "error:1");
    assert!(
        matches!(outcome, StepOutcome::ErrorAbort { .. }),
        "expected ErrorAbort on last line error, got {outcome:?}"
    );
}

#[test]
fn step_abort_flag_causes_done_on_next_ok() {
    let mut st = make_stream(&["G0 X0", "G1 X10 S500", "G0 X0"]);
    st.abort = true;
    let outcome = streaming_step(&mut st, "ok");
    assert!(
        matches!(outcome, StepOutcome::Done { .. }),
        "expected Done when abort=true, got {outcome:?}"
    );
}

#[test]
fn step_sent_counter_increments_on_each_ack() {
    let lines = &["A", "B", "C", "D"];
    let mut st = make_stream(lines);
    streaming_step(&mut st, "ok");
    streaming_step(&mut st, "ok");
    assert_eq!(st.sent, 2);
}

#[test]
fn step_next_idx_increments_correctly() {
    let lines = &["A", "B", "C", "D"];
    let mut st = make_stream(lines);
    assert_eq!(st.next_idx, 1);
    streaming_step(&mut st, "ok");
    assert_eq!(st.next_idx, 2);
    streaming_step(&mut st, "ok");
    assert_eq!(st.next_idx, 3);
}

#[test]
fn step_empty_line_is_not_an_ack() {
    let mut st = make_stream(&["G0 X0"]);
    let outcome = streaming_step(&mut st, "");
    assert_eq!(outcome, StepOutcome::NotAnAck);
}

#[test]
fn step_status_line_between_oks_does_not_affect_state() {
    let lines = &["G0 X0", "G1 X10 S500"];
    let mut st = make_stream(lines);
    assert_eq!(
        streaming_step(&mut st, "<Idle|MPos:0,0,0|FS:0,0>"),
        StepOutcome::NotAnAck
    );
    assert_eq!(st.sent, 0);
    match streaming_step(&mut st, "ok") {
        StepOutcome::SendNext(l) => assert_eq!(l, "G1 X10 S500"),
        other => panic!("expected SendNext, got {other:?}"),
    }
}

fn told(events: &[SerialEvent]) -> Vec<String> {
    events.iter().map(|e| format!("{e:?}")).collect()
}

fn text_written(w: &Option<WriterMsg>) -> Option<String> {
    match w {
        Some(WriterMsg::Text(s)) => Some(s.clone()),
        _ => None,
    }
}

#[test]
fn a_job_is_sent_line_by_line() {
    let mut stream = None;
    let lines: Vec<String> = ["G90", "G1 X1 S5", "M5"].iter().map(|s| s.to_string()).collect();
    let step = command_step(&mut stream, Some(SerialCommand::Stream(lines)));
    assert!(step.starts_stream);
    assert_eq!(text_written(&step.write), Some("G90".to_owned()));
    assert_eq!(told(&step.events), ["Info(\"Starting GCode stream: 3 lines\")"]);

    let step = read_step(&mut stream, ReadOutcome::Line("ok\r\n".to_owned()));
    assert_eq!(text_written(&step.write), Some("G1 X1 S5".to_owned()));
    assert_eq!(
        told(&step.events),
        ["Line(\"ok\")", "StreamProgress { sent: 1, total: 3 }"]
    );

    let step = read_step(&mut stream, ReadOutcome::Line("<Run|MPos:0,0,0>\n".to_owned()));
    assert_eq!(text_written(&step.write), None);
    assert_eq!(told(&step.events), ["Line(\"<Run|MPos:0,0,0>\")"]);

    let step = read_step(&mut stream, ReadOutcome::Line("ok\n".to_owned()));
    assert_eq!(text_written(&step.write), Some("M5".to_owned()));
    let step = read_step(&mut stream, ReadOutcome::Line("ok\n".to_owned()));
    assert_eq!(
        told(&step.events),
        ["Line(\"ok\")", "StreamProgress { sent: 3, total: 3 }", "StreamDone { total: 3 }"]
    );
    assert!(stream.is_none());
}

#[test]
fn while_streaming_only_real_time_bytes_are_let_through() {
    let mut stream = Some(make_stream(&["A", "B"]));
    let step = command_step(&mut stream, Some(SerialCommand::Send("$X".to_owned())));
    assert!(step.write.is_none());
    assert_eq!(
        told(&step.events),
        ["Info(\"Raw send ignored while streaming – abort stream first.\")"]
    );
    let step = command_step(&mut stream, Some(SerialCommand::Stream(vec!["C".to_owned()])));
    assert!(step.write.is_none());
    assert_eq!(
        told(&step.events),
        ["Info(\"Already streaming – ignoring duplicate Stream command.\")"]
    );
    let step = command_step(&mut stream, Some(SerialCommand::RealTimeByte(0x85)));
    assert!(matches!(step.write, Some(WriterMsg::RawByte(0x85))));
    assert!(stream.is_some());
}

#[test]
fn an_aborted_stream_is_gone() {
    let mut stream = Some(make_stream(&["A", "B"]));
    let step = command_step(&mut stream, Some(SerialCommand::AbortStream));
    assert_eq!(
        told(&step.events),
        ["StreamAborted { sent: 0, total: 2, reason: \"Aborted by user\" }"]
    );
    assert!(stream.is_none());
    let step = command_step(&mut stream, Some(SerialCommand::AbortStream));
    assert!(step.events.is_empty());
}

#[test]
fn an_error_ends_the_stream_at_the_failing_line() {
    let mut stream = Some(make_stream(&["A", "B"]));
    let step = read_step(&mut stream, ReadOutcome::Line("error:9\n".to_owned()));
    assert_eq!(
        told(&step.events),
        [
            "Line(\"error:9\")",
            "StreamAborted { sent: 1, total: 2, reason: \"GRBL reported 'error:9' on line 1 of 2\" }"
        ]
    );
    assert!(stream.is_none());
}

#[test]
fn an_empty_job_is_done_at_once() {
    let mut stream = None;
    let step = command_step(&mut stream, Some(SerialCommand::Stream(Vec::new())));
    assert_eq!(told(&step.events), ["StreamDone { total: 0 }"]);
    assert!(step.write.is_none());
    assert!(stream.is_none());
}

#[test]
fn the_actor_ends_when_told_or_when_the_port_fails() {
    let mut stream = None;
    for command in [Some(SerialCommand::Disconnect), None] {
        let step = command_step(&mut stream, command);
        assert!(step.stop && step.shutdown_writer);
        assert_eq!(told(&step.events), ["Disconnected(None)"]);
    }
    let step = read_step(&mut stream, ReadOutcome::Closed);
    assert!(step.stop);
    assert_eq!(
        told(&step.events),
        [
            "Error(\"Serial port closed by device\")",
            "Disconnected(Some(\"Port closed by device\"))"
        ]
    );
    let step = read_step(&mut stream, ReadOutcome::Failed("gone".to_owned()));
    assert!(step.stop);
    assert_eq!(
        told(&step.events),
        ["Error(\"Read error: gone\")", "Disconnected(Some(\"Read error: gone\"))"]
    );
    let step = read_step(&mut stream, ReadOutcome::Nothing);
    assert!(!step.stop && step.pause);
    assert!(step.events.is_empty());
}

#[test]
fn blank_lines_are_dropped() {
    let mut stream = None;
    let step = read_step(&mut stream, ReadOutcome::Line("\r\n".to_owned()));
    assert!(step.events.is_empty());
    let step = read_step(&mut stream, ReadOutcome::Line(" ok \r\n".to_owned()));
    assert_eq!(told(&step.events), ["Line(\" ok \")"]);
}

#[test]
fn a_stream_does_not_survive_a_dead_writer() {
    let mut stream = None;
    let step = command_step(&mut stream, Some(SerialCommand::Stream(vec!["A".to_owned()])));
    command_undelivered(&mut stream, &step);
    assert!(stream.is_none());
    let mut stream = Some(make_stream(&["A", "B"]));
    let events = line_undelivered(&mut stream);
    assert_eq!(
        told(&events),
        ["StreamAborted { sent: 0, total: 2, reason: \"Writer thread died\" }"]
    );
    assert!(stream.is_none());
}

#[test]
fn lines_end_with_a_line_feed_and_bytes_go_bare() {
    assert_eq!(frame(&WriterMsg::Text("G0 X1 é".to_owned())), "G0 X1 é\n".as_bytes());
    assert_eq!(frame(&WriterMsg::RawByte(0x18)), [0x18]);
}

#[test]
fn failures_to_write_are_told() {
    let e = write_failed(&WriterMsg::Text("x".to_owned()), "no");
    assert_eq!(told(&[e]), ["Error(\"Write error: no\")"]);
    let e = write_failed(&WriterMsg::RawByte(0x8f), "no");
    assert_eq!(told(&[e]), ["Error(\"Write error (real-time byte 0x8F): no\")"]);
    assert_eq!(told(&[flush_failed("no")]), ["Error(\"Flush error: no\")"]);
    assert_eq!(told(&actor_started("/dev/ttyS0")), ["Info(\"Connected to /dev/ttyS0\")"]);
    assert_eq!(
        told(&actor_stillborn("no")),
        [
            "Error(\"Failed to clone port for writing: no\")",
            "Disconnected(Some(\"Could not clone serial port\"))"
        ]
    );
}
