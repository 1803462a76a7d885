//! The serial side of the program: which ports are worth listing, the commands
//! and events that pass between the user interface and the port, and the
//! line-by-line streaming of a job, where each line waits for the machine's
//! acknowledgement of the one before.
use vstd::prelude::*;
use vstd::string::*;

use crate::text;

verus! {

// ── Port discovery ────────────────────────────────────────────────────────────

/// Whether a device of this name is likely to be a serial port.
pub open spec fn is_serial_name(name: Seq<char>) -> bool {
    ||| text::starts(name, "ttyUSB"@)
    ||| text::starts(name, "ttyACM"@)
    ||| text::starts(name, "ttyS"@)
    ||| text::starts(name, "ttyAMA"@)
    ||| text::starts(name, "rfcomm"@)
}

/// The paths of the serial ports among the device names, in the order given.
pub open spec fn serial_paths(names: Seq<Seq<char>>) -> Seq<Seq<char>>
    decreases names.len(),
{
    if names.len() == 0 {
        seq![]
    } else {
        let rest = serial_paths(names.drop_last());
        if is_serial_name(names.last()) {
            rest.push("/dev/"@ + names.last())
        } else {
            rest
        }
    }
}

/// `a` comes before `b` in the order of code points, or equals it.
pub open spec fn in_order(a: Seq<char>, b: Seq<char>) -> bool
    decreases a.len(),
{
    if a.len() == 0 {
        true
    } else if b.len() == 0 {
        false
    } else {
        a[0] < b[0] || (a[0] == b[0] && in_order(a.skip(1), b.skip(1)))
    }
}

pub open spec fn sorted(v: Seq<Seq<char>>) -> bool {
    forall|i: int, j: int| 0 <= i <= j < v.len() ==> in_order(#[trigger] v[i], #[trigger] v[j])
}

proof fn lemma_in_order_total(a: Seq<char>, b: Seq<char>)
    ensures
        in_order(a, b) || in_order(b, a),
        in_order(a, a),
    decreases a.len(),
{
    if a.len() > 0 {
        lemma_in_order_total(a.skip(1), if b.len() > 0 { b.skip(1) } else { b });
    }
}

proof fn lemma_in_order_transitive(a: Seq<char>, b: Seq<char>, c: Seq<char>)
    requires
        in_order(a, b),
        in_order(b, c),
    ensures
        in_order(a, c),
    decreases a.len(),
{
    if a.len() > 0 && a[0] == b[0] && b[0] == c[0] {
        lemma_in_order_transitive(a.skip(1), b.skip(1), c.skip(1));
    }
}

/// Whether `a` comes before `b` in the order of code points, or equals it.
fn ordered(a: &str, b: &str) -> (r: bool)
    ensures
        r == in_order(a@, b@),
{
    let u = text::to_chars(a);
    let v = text::to_chars(b);
    let mut i: usize = 0;
    assert(u@.skip(0) == a@);
    assert(v@.skip(0) == b@);
    loop
        invariant
            u@ == a@,
            v@ == b@,
            i <= u@.len(),
            i <= v@.len(),
            in_order(a@, b@) == in_order(u@.skip(i as int), v@.skip(i as int)),
        decreases u@.len() - i,
    {
        if i == u.len() {
            return true;
        }
        if i == v.len() {
            return false;
        }
        if u[i] != v[i] {
            return u[i] < v[i];
        }
        assert(u@.skip(i as int).skip(1) == u@.skip(i + 1));
        assert(v@.skip(i as int).skip(1) == v@.skip(i + 1));
        i = i + 1;
    }
}

fn serial_name(name: &str) -> (r: bool)
    ensures
        r == is_serial_name(name@),
{
    text::starts_with(name, "ttyUSB") || text::starts_with(name, "ttyACM") || text::starts_with(
        name,
        "ttyS",
    ) || text::starts_with(name, "ttyAMA") || text::starts_with(name, "rfcomm")
}

/// Put `path` into its place in a sorted list.
fn insert_sorted(out: &mut Vec<String>, path: String)
    requires
        sorted(text::texts(old(out)@)),
    ensures
        sorted(text::texts(final(out)@)),
        text::texts(final(out)@).to_multiset() == text::texts(old(out)@).to_multiset().insert(
            path@,
        ),
{
    let ghost before = text::texts(out@);
    let mut k: usize = out.len();
    while k > 0 && !ordered(out[k - 1].as_str(), path.as_str())
        invariant
            k <= out@.len(),
            text::texts(out@) == before,
            forall|j: int| k <= j < before.len() ==> !in_order(#[trigger] before[j], path@),
        decreases k,
    {
        assert(before[k - 1] == out@[k - 1]@);
        k = k - 1;
    }
    let ghost p = path@;
    proof {
        assert forall|j: int| k <= j < before.len() implies in_order(p, #[trigger] before[j]) by {
            lemma_in_order_total(p, before[j]);
        }
        assert forall|j: int| 0 <= j < k implies in_order(#[trigger] before[j], p) by {
            assert(before[k - 1] == out@[k - 1]@);
            lemma_in_order_transitive(before[j], before[k - 1], p);
        }
        lemma_in_order_total(p, p);
        before.to_multiset_ensures();
        before.insert(k as int, p).to_multiset_ensures();
        vstd::seq_lib::to_multiset_insert(before, k as int, p);
    }
    out.insert(k, path);
    assert(text::texts(out@) == before.insert(k as int, p));
}

/// The paths of the likely serial ports among the names found under `/dev`,
/// sorted.
pub fn discover_ports(names: &Vec<String>) -> (r: Vec<String>)
    ensures
        sorted(text::texts(r@)),
        text::texts(r@).to_multiset() == serial_paths(text::texts(names@)).to_multiset(),
{
    let mut out: Vec<String> = Vec::new();
    let ghost all = text::texts(names@);
    let mut i: usize = 0;
    assert(text::texts(out@) == Seq::<Seq<char>>::empty());
    assert(all.take(0) == Seq::<Seq<char>>::empty());
    while i < names.len()
        invariant
            i <= names@.len(),
            all == text::texts(names@),
            sorted(text::texts(out@)),
            text::texts(out@).to_multiset() == serial_paths(all.take(i as int)).to_multiset(),
        decreases names@.len() - i,
    {
        assert(all.take(i + 1).drop_last() == all.take(i as int));
        assert(all.take(i + 1).last() == names@[i as int]@);
        if serial_name(names[i].as_str()) {
            let path = text::joined("/dev/", names[i].as_str());
            proof {
                serial_paths(all.take(i as int)).to_multiset_ensures();
            }
            insert_sorted(&mut out, path);
        }
        i = i + 1;
    }
    assert(all.take(i as int) == all);
    out
}

// ── Port paths ────────────────────────────────────────────────────────────────

/// `std::path::Path::exists` says whether something is found at a path.  What
/// is found there is up to the machine, so nothing is claimed of the answer.
#[verifier::external_body]
fn path_exists(path: &str) -> (r: bool) {
    std::path::Path::new(path).exists()
}

/// The complaint about a port path, given whether the device exists.
pub open spec fn port_complaint(path: Seq<char>, exists: bool) -> Option<Seq<char>> {
    if !text::starts(path, "/dev/"@) {
        Some("Port path must start with /dev/"@)
    } else if !exists {
        Some("Device "@ + path + " does not exist"@)
    } else {
        None
    }
}

/// The complaint that a verdict holds.
pub open spec fn complaint(r: Result<(), String>) -> Option<Seq<char>> {
    match r {
        Ok(_) => None,
        Err(e) => Some(e@),
    }
}

/// Sanity-check a port path, given whether the device exists.
pub fn check_port_path(path: &str, exists: bool) -> (r: Result<(), String>)
    ensures
        complaint(r) == port_complaint(path@, exists),
{
    if !text::starts_with(path, "/dev/") {
        return Err("Port path must start with /dev/".to_owned());
    }
    if !exists {
        return Err(
            text::joined(text::joined("Device ", path).as_str(), " does not exist"),
        );
    }
    Ok(())
}

/// Sanity-check a path before trying to open it.
pub fn validate_port_path(path: &str) -> (r: Result<(), String>)
    ensures
        complaint(r) == port_complaint(path@, true) || complaint(r) == port_complaint(path@, false),
{
    let exists = path_exists(path);
    check_port_path(path, exists)
}

// ── Commands and events ───────────────────────────────────────────────────────

/// Events that the serial actor sends back to the user interface.
#[derive(Debug)]
pub enum SerialEvent {
    /// A complete line, without its ending, received from the device.
    Line(String),
    /// The connection was closed, by the user or due to an error.
    Disconnected(Option<String>),
    /// An informational message for the console.
    Info(String),
    /// An error message for the console.
    Error(String),
    /// A job is being streamed: `sent` lines of `total` are acknowledged.
    StreamProgress { sent: usize, total: usize },
    /// The stream finished.
    StreamDone { total: usize },
    /// The stream was aborted, by the user or due to an error.
    StreamAborted { sent: usize, total: usize, reason: String },
}

/// Commands that the user interface sends to the serial actor.
#[derive(Debug)]
pub enum SerialCommand {
    /// Send a line to the device; the line feed is added on the way.
    Send(String),
    /// Send a single real-time byte, without a line feed.
    ///
    /// Real-time commands (jog cancel, cycle start, feed hold, soft reset) are
    /// picked up by the receive interrupt whatever the line buffer holds.
    RealTimeByte(u8),
    /// Stream lines, each one after the acknowledgement of the one before.
    Stream(Vec<String>),
    /// Abort a running stream: no further lines are sent.
    AbortStream,
    /// Close the port and shut the actor down.
    Disconnect,
}

/// What the actor hands to the writer.
#[derive(Debug)]
pub enum WriterMsg {
    /// A line; the line feed is added before it is written.
    Text(String),
    /// A real-time byte, written as it is.
    RawByte(u8),
}

/// An event, with texts by their characters.
pub enum Event {
    Line(Seq<char>),
    Disconnected(Option<Seq<char>>),
    Info(Seq<char>),
    Error(Seq<char>),
    StreamProgress { sent: nat, total: nat },
    StreamDone { total: nat },
    StreamAborted { sent: nat, total: nat, reason: Seq<char> },
}

/// A command, with texts by their characters.
pub enum Command {
    Send(Seq<char>),
    RealTimeByte(u8),
    Stream(Seq<Seq<char>>),
    AbortStream,
    Disconnect,
}

/// A message to the writer, with texts by their characters.
pub enum Writing {
    Text(Seq<char>),
    RawByte(u8),
}

impl View for SerialEvent {
    type V = Event;

    open spec fn view(&self) -> Event {
        match *self {
            SerialEvent::Line(s) => Event::Line(s@),
            SerialEvent::Disconnected(r) => Event::Disconnected(text::opt(r)),
            SerialEvent::Info(s) => Event::Info(s@),
            SerialEvent::Error(s) => Event::Error(s@),
            SerialEvent::StreamProgress { sent, total } => Event::StreamProgress {
                sent: sent as nat,
                total: total as nat,
            },
            SerialEvent::StreamDone { total } => Event::StreamDone { total: total as nat },
            SerialEvent::StreamAborted { sent, total, reason } => Event::StreamAborted {
                sent: sent as nat,
                total: total as nat,
                reason: reason@,
            },
        }
    }
}

impl View for SerialCommand {
    type V = Command;

    open spec fn view(&self) -> Command {
        match *self {
            SerialCommand::Send(s) => Command::Send(s@),
            SerialCommand::RealTimeByte(b) => Command::RealTimeByte(b),
            SerialCommand::Stream(v) => Command::Stream(text::texts(v@)),
            SerialCommand::AbortStream => Command::AbortStream,
            SerialCommand::Disconnect => Command::Disconnect,
        }
    }
}

impl View for WriterMsg {
    type V = Writing;

    open spec fn view(&self) -> Writing {
        match *self {
            WriterMsg::Text(s) => Writing::Text(s@),
            WriterMsg::RawByte(b) => Writing::RawByte(b),
        }
    }
}

pub open spec fn events(v: Seq<SerialEvent>) -> Seq<Event> {
    v.map_values(|e: SerialEvent| e@)
}

// ── The writer ────────────────────────────────────────────────────────────────

/// The bytes that a message puts on the wire.
pub open spec fn wire_bytes(w: Writing) -> Seq<u8> {
    match w {
        Writing::Text(s) => vstd::utf8::encode_utf8(s + "\n"@),
        Writing::RawByte(b) => seq![b],
    }
}

/// The bytes that a message puts on the wire: a line with its line feed, or a
/// bare byte.
pub fn frame(msg: &WriterMsg) -> (r: Vec<u8>)
    ensures
        r@ == wire_bytes(msg@),
{
    match msg {
        WriterMsg::Text(s) => text::joined(s.as_str(), "\n").as_str().as_bytes_vec(),
        WriterMsg::RawByte(b) => vec![*b],
    }
}

/// The hexadecimal digit of a value below sixteen, in capitals.
pub open spec fn hex_digit(d: nat) -> char {
    if d < 10 {
        ('0' as nat + d) as char
    } else {
        ('A' as nat + (d - 10)) as char
    }
}

fn hex_of(d: u8) -> (r: char)
    requires
        d < 16,
    ensures
        r == hex_digit(d as nat),
{
    if d < 10 {
        (48 + d) as char
    } else {
        (65 + (d - 10)) as char
    }
}

/// The complaint when a message could not be written.
pub open spec fn write_complaint(w: Writing, error: Seq<char>) -> Seq<char> {
    match w {
        Writing::Text(_) => "Write error: "@ + error,
        Writing::RawByte(b) => "Write error (real-time byte 0x"@ + seq![
            hex_digit((b / 16) as nat),
            hex_digit((b % 16) as nat),
        ] + "): "@ + error,
    }
}

/// The event for a message that could not be written.
pub fn write_failed(msg: &WriterMsg, error: &str) -> (r: SerialEvent)
    ensures
        r@ == Event::Error(write_complaint(msg@, error@)),
{
    match msg {
        WriterMsg::Text(_) => SerialEvent::Error(text::joined("Write error: ", error)),
        WriterMsg::RawByte(b) => {
            let mut s = "Write error (real-time byte 0x".to_owned();
            let ghost head = s@;
            s.push(hex_of(*b / 16));
            s.push(hex_of(*b % 16));
            assert(s@ == head + seq![hex_digit((*b / 16) as nat), hex_digit((*b % 16) as nat)]);
            s.append("): ");
            s.append(error);
            SerialEvent::Error(s)
        },
    }
}

/// The event for a port that could not be flushed.
pub fn flush_failed(error: &str) -> (r: SerialEvent)
    ensures
        r@ == Event::Error("Flush error: "@ + error@),
{
    SerialEvent::Error(text::joined("Flush error: ", error))
}

// ── Streaming ─────────────────────────────────────────────────────────────────

/// State kept while a job is streamed line by line.
#[derive(Debug)]
pub struct StreamState {
    /// All lines to be sent.
    pub lines: Vec<String>,
    /// Index of the line to send after the next acknowledgement.
    pub next_idx: usize,
    /// Number of lines acknowledged so far.
    pub sent: usize,
    /// When true, stop after the line in flight is acknowledged.
    pub abort: bool,
}

/// What an inbound line means for the stream.
#[derive(Debug, PartialEq)]
pub enum StepOutcome {
    /// Send this line and go on.
    SendNext(String),
    /// The stream is complete.
    Done { total: usize },
    /// The machine reported an error: the stream is over.
    ErrorAbort { sent: usize, total: usize, reason: String },
    /// The line was no acknowledgement; the stream is not affected.
    NotAnAck,
}

/// The state of a stream, with texts by their characters.
pub struct Progress {
    pub lines: Seq<Seq<char>>,
    pub next: int,
    pub sent: int,
    pub abort: bool,
}

/// An outcome, with texts by their characters.
pub enum Outcome {
    SendNext(Seq<char>),
    Done { total: int },
    ErrorAbort { sent: int, total: int, reason: Seq<char> },
    NotAnAck,
}

impl View for StreamState {
    type V = Progress;

    open spec fn view(&self) -> Progress {
        Progress {
            lines: text::texts(self.lines@),
            next: self.next_idx as int,
            sent: self.sent as int,
            abort: self.abort,
        }
    }
}

impl View for StepOutcome {
    type V = Outcome;

    open spec fn view(&self) -> Outcome {
        match *self {
            StepOutcome::SendNext(s) => Outcome::SendNext(s@),
            StepOutcome::Done { total } => Outcome::Done { total: total as int },
            StepOutcome::ErrorAbort { sent, total, reason } => Outcome::ErrorAbort {
                sent: sent as int,
                total: total as int,
                reason: reason@,
            },
            StepOutcome::NotAnAck => Outcome::NotAnAck,
        }
    }
}

pub open spec fn is_ok(line: Seq<char>) -> bool {
    text::lower(line) == text::lower("ok"@)
}

pub open spec fn is_error(line: Seq<char>) -> bool {
    text::starts(text::lower(line), "error:"@)
}

pub open spec fn error_reason(line: Seq<char>, sent: nat, total: nat) -> Seq<char> {
    "GRBL reported '"@ + line + "' on line "@ + text::decimal(sent) + " of "@ + text::decimal(total)
}

/// The stream after an inbound line, and what is to be done.
pub open spec fn step(p: Progress, line: Seq<char>) -> (Progress, Outcome) {
    let total = p.lines.len() as int;
    if is_error(line) {
        let sent = p.sent + 1;
        (
            Progress { sent, ..p },
            Outcome::ErrorAbort { sent, total, reason: error_reason(line, sent as nat, total as nat) },
        )
    } else if is_ok(line) {
        let q = Progress { sent: p.sent + 1, ..p };
        if p.abort || p.next >= total {
            (q, Outcome::Done { total: q.sent })
        } else {
            (Progress { next: p.next + 1, ..q }, Outcome::SendNext(p.lines[p.next]))
        }
    } else {
        (p, Outcome::NotAnAck)
    }
}

/// Decide what an inbound line means for the stream: `ok` moves on to the next
/// line, `error:N` aborts, and anything else leaves the stream as it is.
pub fn streaming_step(st: &mut StreamState, line: &str) -> (r: StepOutcome)
    requires
        old(st).sent < usize::MAX,
    ensures
        (final(st)@, r@) == step(old(st)@, line@),
{
    let is_ok = text::same_ignoring_case(line, "ok");
    let is_error = text::starts_with(text::to_lower(line).as_str(), "error:");
    if !is_ok && !is_error {
        return StepOutcome::NotAnAck;
    }
    st.sent = st.sent + 1;
    let total = st.lines.len();
    if is_error {
        let mut reason = "GRBL reported '".to_owned();
        reason.append(line);
        reason.append("' on line ");
        reason.append(text::decimal_of(st.sent as u64).as_str());
        reason.append(" of ");
        reason.append(text::decimal_of(total as u64).as_str());
        return StepOutcome::ErrorAbort { sent: st.sent, total, reason };
    }
    if st.abort || st.next_idx >= total {
        StepOutcome::Done { total: st.sent }
    } else {
        let next = st.lines[st.next_idx].clone();
        st.next_idx = st.next_idx + 1;
        StepOutcome::SendNext(next)
    }
}

// ── The actor ─────────────────────────────────────────────────────────────────

/// What the actor does next: stop the writer if asked to, send the events, hand
/// the message to the writer, pause if asked to; and stop if asked to.
#[derive(Debug)]
pub struct ActorStep {
    pub shutdown_writer: bool,
    pub events: Vec<SerialEvent>,
    pub write: Option<WriterMsg>,
    /// The message is the first line of a new stream.
    pub starts_stream: bool,
    /// Nothing was there to be read: wait a little.
    pub pause: bool,
    pub stop: bool,
}

/// A step of the actor, with texts by their characters.
pub struct Step {
    pub shutdown_writer: bool,
    pub events: Seq<Event>,
    pub write: Option<Writing>,
    pub starts_stream: bool,
    pub pause: bool,
    pub stop: bool,
}

impl View for ActorStep {
    type V = Step;

    open spec fn view(&self) -> Step {
        Step {
            shutdown_writer: self.shutdown_writer,
            events: events(self.events@),
            write: match self.write {
                Some(w) => Some(w@),
                None => None,
            },
            starts_stream: self.starts_stream,
            pause: self.pause,
            stop: self.stop,
        }
    }
}

/// The step that sends `events` and nothing else.
pub open spec fn telling(events: Seq<Event>) -> Step {
    Step {
        shutdown_writer: false,
        events,
        write: None,
        starts_stream: false,
        pause: false,
        stop: false,
    }
}

/// The step that ends the actor after sending `events`.
pub open spec fn ending(events: Seq<Event>) -> Step {
    Step { shutdown_writer: true, stop: true, ..telling(events) }
}

/// The step that writes `w` after sending `events`.
pub open spec fn writing(events: Seq<Event>, w: Writing) -> Step {
    Step { write: Some(w), ..telling(events) }
}

/// The view of an optional stream.
pub open spec fn progress(s: Option<StreamState>) -> Option<Progress> {
    match s {
        Some(st) => Some(st@),
        None => None,
    }
}

/// One line is in flight: all lines before it are acknowledged.
pub open spec fn in_flight(s: Option<Progress>) -> bool {
    match s {
        Some(p) => 1 <= p.next <= p.lines.len() && p.sent == p.next - 1,
        None => true,
    }
}

/// The stream of `lines` when the first one has been sent.
pub open spec fn started(lines: Seq<Seq<char>>) -> Progress {
    Progress { lines, next: 1, sent: 0, abort: false }
}

/// The actor's answer to a command; `None` stands for a closed command channel.
pub open spec fn on_command(s: Option<Progress>, c: Option<Command>) -> (Option<Progress>, Step) {
    match c {
        Some(Command::Send(line)) => if s is Some {
            (
                s,
                telling(
                    seq![Event::Info("Raw send ignored while streaming – abort stream first."@)],
                ),
            )
        } else {
            (s, writing(seq![], Writing::Text(line)))
        },
        Some(Command::RealTimeByte(b)) => (s, writing(seq![], Writing::RawByte(b))),
        Some(Command::Stream(lines)) => if s is Some {
            (
                s,
                telling(
                    seq![Event::Info("Already streaming – ignoring duplicate Stream command."@)],
                ),
            )
        } else if lines.len() == 0 {
            (s, telling(seq![Event::StreamDone { total: 0 }]))
        } else {
            (
                Some(started(lines)),
                Step {
                    starts_stream: true,
                    ..writing(
                        seq![
                            Event::Info(
                                "Starting GCode stream: "@ + text::decimal(lines.len()) + " lines"@,
                            ),
                        ],
                        Writing::Text(lines[0]),
                    )
                },
            )
        },
        Some(Command::AbortStream) => match s {
            Some(p) => (
                None,
                telling(
                    seq![
                        Event::StreamAborted {
                            sent: p.sent as nat,
                            total: p.lines.len(),
                            reason: "Aborted by user"@,
                        },
                    ],
                ),
            ),
            None => (s, telling(seq![])),
        },
        Some(Command::Disconnect) | None => (s, ending(seq![Event::Disconnected(None)])),
    }
}

/// What an attempt to read a line from the port gave.
#[derive(Debug)]
pub enum ReadOutcome {
    /// The device closed the port.
    Closed,
    /// A line, with its ending.
    Line(String),
    /// Nothing arrived in time.
    Nothing,
    /// Reading failed with this error.
    Failed(String),
}

/// An attempt to read, with texts by their characters.
pub enum Reading {
    Closed,
    Line(Seq<char>),
    Nothing,
    Failed(Seq<char>),
}

impl View for ReadOutcome {
    type V = Reading;

    open spec fn view(&self) -> Reading {
        match *self {
            ReadOutcome::Closed => Reading::Closed,
            ReadOutcome::Line(s) => Reading::Line(s@),
            ReadOutcome::Nothing => Reading::Nothing,
            ReadOutcome::Failed(e) => Reading::Failed(e@),
        }
    }
}

/// The actor's answer to a line from the device.
pub open spec fn on_line(s: Option<Progress>, raw: Seq<char>) -> (Option<Progress>, Step) {
    let line = text::without_line_end(raw);
    if line.len() == 0 {
        (s, telling(seq![]))
    } else {
        match s {
            None => (s, telling(seq![Event::Line(line)])),
            Some(p) => {
                let (q, outcome) = step(p, line);
                let total = p.lines.len();
                match outcome {
                    Outcome::NotAnAck => (s, telling(seq![Event::Line(line)])),
                    Outcome::ErrorAbort { sent, total, reason } => (
                        None,
                        telling(
                            seq![
                                Event::Line(line),
                                Event::StreamAborted {
                                    sent: sent as nat,
                                    total: total as nat,
                                    reason,
                                },
                            ],
                        ),
                    ),
                    Outcome::Done { total } => (
                        None,
                        telling(
                            seq![
                                Event::Line(line),
                                Event::StreamProgress { sent: total as nat, total: total as nat },
                                Event::StreamDone { total: total as nat },
                            ],
                        ),
                    ),
                    Outcome::SendNext(next) => (
                        Some(q),
                        writing(
                            seq![
                                Event::Line(line),
                                Event::StreamProgress { sent: q.sent as nat, total },
                            ],
                            Writing::Text(next),
                        ),
                    ),
                }
            },
        }
    }
}

/// The actor's answer to an attempt to read.
pub open spec fn on_read(s: Option<Progress>, r: Reading) -> (Option<Progress>, Step) {
    match r {
        Reading::Closed => (
            s,
            ending(
                seq![
                    Event::Error("Serial port closed by device"@),
                    Event::Disconnected(Some("Port closed by device"@)),
                ],
            ),
        ),
        Reading::Line(raw) => on_line(s, raw),
        Reading::Nothing => (s, Step { pause: true, ..telling(seq![]) }),
        Reading::Failed(e) => (
            s,
            ending(
                seq![
                    Event::Error("Read error: "@ + e),
                    Event::Disconnected(Some("Read error: "@ + e)),
                ],
            ),
        ),
    }
}

fn plan(events: Vec<SerialEvent>) -> (r: ActorStep)
    ensures
        r@ == telling(self::events(events@)),
{
    ActorStep {
        shutdown_writer: false,
        events,
        write: None,
        starts_stream: false,
        pause: false,
        stop: false,
    }
}

/// The events when the actor starts on an open port.
pub fn actor_started(path: &str) -> (r: Vec<SerialEvent>)
    ensures
        events(r@) == seq![Event::Info("Connected to "@ + path@)],
{
    let r = vec![SerialEvent::Info(text::joined("Connected to ", path))];
    assert(events(r@) == seq![Event::Info("Connected to "@ + path@)]);
    r
}

/// The events when the port cannot be opened a second time for writing.
pub fn actor_stillborn(error: &str) -> (r: Vec<SerialEvent>)
    ensures
        events(r@) == seq![
            Event::Error("Failed to clone port for writing: "@ + error@),
            Event::Disconnected(Some("Could not clone serial port"@)),
        ],
{
    let r = vec![
        SerialEvent::Error(text::joined("Failed to clone port for writing: ", error)),
        SerialEvent::Disconnected(Some("Could not clone serial port".to_owned())),
    ];
    assert(events(r@) == seq![
        Event::Error("Failed to clone port for writing: "@ + error@),
        Event::Disconnected(Some("Could not clone serial port"@)),
    ]);
    r
}

/// Decide on a command; `None` stands for a closed command channel.
pub fn command_step(stream: &mut Option<StreamState>, command: Option<SerialCommand>) -> (r:
    ActorStep)
    requires
        in_flight(progress(*old(stream))),
    ensures
        (progress(*final(stream)), r@) == on_command(
            progress(*old(stream)),
            match command {
                Some(c) => Some(c@),
                None => None,
            },
        ),
        in_flight(progress(*final(stream))),
{
    let mut told: Vec<SerialEvent> = Vec::new();
    assert(events(told@) == Seq::<Event>::empty());
    match command {
        Some(SerialCommand::Send(line)) => {
            if stream.is_some() {
                told.push(
                    SerialEvent::Info(
                        "Raw send ignored while streaming – abort stream first.".to_owned(),
                    ),
                );
                assert(events(told@) == seq![
                    Event::Info("Raw send ignored while streaming – abort stream first."@),
                ]);
                plan(told)
            } else {
                let mut r = plan(told);
                r.write = Some(WriterMsg::Text(line));
                r
            }
        },
        Some(SerialCommand::RealTimeByte(b)) => {
            let mut r = plan(told);
            r.write = Some(WriterMsg::RawByte(b));
            r
        },
        Some(SerialCommand::Stream(lines)) => {
            if stream.is_some() {
                told.push(
                    SerialEvent::Info(
                        "Already streaming – ignoring duplicate Stream command.".to_owned(),
                    ),
                );
                assert(events(told@) == seq![
                    Event::Info("Already streaming – ignoring duplicate Stream command."@),
                ]);
                plan(told)
            } else if lines.len() == 0 {
                told.push(SerialEvent::StreamDone { total: 0 });
                assert(events(told@) == seq![Event::StreamDone { total: 0 }]);
                plan(told)
            } else {
                let mut info = "Starting GCode stream: ".to_owned();
                info.append(text::decimal_of(lines.len() as u64).as_str());
                info.append(" lines");
                told.push(SerialEvent::Info(info));
                assert(events(told@) == seq![Event::Info(info@)]);
                let mut r = plan(told);
                r.write = Some(WriterMsg::Text(lines[0].clone()));
                r.starts_stream = true;
                *stream = Some(StreamState { lines, next_idx: 1, sent: 0, abort: false });
                r
            }
        },
        Some(SerialCommand::AbortStream) => {
            match stream.take() {
                Some(st) => {
                    told.push(
                        SerialEvent::StreamAborted {
                            sent: st.sent,
                            total: st.lines.len(),
                            reason: "Aborted by user".to_owned(),
                        },
                    );
                    assert(events(told@) == seq![
                        Event::StreamAborted {
                            sent: st.sent as nat,
                            total: st.lines@.len(),
                            reason: "Aborted by user"@,
                        },
                    ]);
                },
                None => {},
            }
            plan(told)
        },
        Some(SerialCommand::Disconnect) | None => {
            told.push(SerialEvent::Disconnected(None));
            assert(events(told@) == seq![Event::Disconnected(None)]);
            let mut r = plan(told);
            r.shutdown_writer = true;
            r.stop = true;
            r
        },
    }
}

/// The message of a command step could not be handed to the writer: a stream
/// that was to start with it does not start.
pub fn command_undelivered(stream: &mut Option<StreamState>, step: &ActorStep)
    ensures
        progress(*final(stream)) == (if step.starts_stream {
            None
        } else {
            progress(*old(stream))
        }),
{
    if step.starts_stream {
        *stream = None;
    }
}

/// Decide on an attempt to read.
pub fn read_step(stream: &mut Option<StreamState>, outcome: ReadOutcome) -> (r: ActorStep)
    requires
        in_flight(progress(*old(stream))),
    ensures
        (progress(*final(stream)), r@) == on_read(progress(*old(stream)), outcome@),
        in_flight(progress(*final(stream))),
{
    let mut told: Vec<SerialEvent> = Vec::new();
    assert(events(told@) == Seq::<Event>::empty());
    match outcome {
        ReadOutcome::Closed => {
            told.push(SerialEvent::Error("Serial port closed by device".to_owned()));
            told.push(SerialEvent::Disconnected(Some("Port closed by device".to_owned())));
            assert(events(told@) == seq![
                Event::Error("Serial port closed by device"@),
                Event::Disconnected(Some("Port closed by device"@)),
            ]);
            let mut r = plan(told);
            r.shutdown_writer = true;
            r.stop = true;
            r
        },
        ReadOutcome::Line(raw) => line_step(stream, raw.as_str()),
        ReadOutcome::Nothing => {
            let mut r = plan(told);
            r.pause = true;
            r
        },
        ReadOutcome::Failed(e) => {
            told.push(SerialEvent::Error(text::joined("Read error: ", e.as_str())));
            told.push(
                SerialEvent::Disconnected(Some(text::joined("Read error: ", e.as_str()))),
            );
            assert(events(told@) == seq![
                Event::Error("Read error: "@ + e@),
                Event::Disconnected(Some("Read error: "@ + e@)),
            ]);
            let mut r = plan(told);
            r.shutdown_writer = true;
            r.stop = true;
            r
        },
    }
}

fn line_step(stream: &mut Option<StreamState>, raw: &str) -> (r: ActorStep)
    requires
        in_flight(progress(*old(stream))),
    ensures
        (progress(*final(stream)), r@) == on_line(progress(*old(stream)), raw@),
        in_flight(progress(*final(stream))),
{
    let mut told: Vec<SerialEvent> = Vec::new();
    assert(events(told@) == Seq::<Event>::empty());
    let line = text::trim_line_end(raw);
    let ghost shown = line@;
    if text::is_empty(line.as_str()) {
        return plan(told);
    }
    told.push(SerialEvent::Line(line.clone()));
    assert(events(told@) == seq![Event::Line(shown)]);
    let current = stream.take();
    match current {
        None => plan(told),
        Some(mut st) => {
            let ghost p = st@;
            match streaming_step(&mut st, line.as_str()) {
                StepOutcome::NotAnAck => {
                    *stream = Some(st);
                    plan(told)
                },
                StepOutcome::ErrorAbort { sent, total, reason } => {
                    let ghost why = reason@;
                    told.push(SerialEvent::StreamAborted { sent, total, reason });
                    assert(events(told@) == seq![
                        Event::Line(shown),
                        Event::StreamAborted {
                            sent: sent as nat,
                            total: total as nat,
                            reason: why,
                        },
                    ]);
                    plan(told)
                },
                StepOutcome::Done { total } => {
                    told.push(SerialEvent::StreamProgress { sent: total, total });
                    told.push(SerialEvent::StreamDone { total });
                    assert(events(told@) == seq![
                        Event::Line(shown),
                        Event::StreamProgress { sent: total as nat, total: total as nat },
                        Event::StreamDone { total: total as nat },
                    ]);
                    plan(told)
                },
                StepOutcome::SendNext(next) => {
                    let total = st.lines.len();
                    told.push(SerialEvent::StreamProgress { sent: st.sent, total });
                    assert(events(told@) == seq![
                        Event::Line(shown),
                        Event::StreamProgress { sent: st.sent as nat, total: total as nat },
                    ]);
                    let mut r = plan(told);
                    r.write = Some(WriterMsg::Text(next));
                    *stream = Some(st);
                    r
                },
            }
        },
    }
}

/// The next line of a stream could not be handed to the writer: the stream is
/// over.
pub fn line_undelivered(stream: &mut Option<StreamState>) -> (r: Vec<SerialEvent>)
    ensures
        progress(*final(stream)) is None,
        events(r@) == (match progress(*old(stream)) {
            Some(p) => seq![
                Event::StreamAborted {
                    sent: p.sent as nat,
                    total: p.lines.len(),
                    reason: "Writer thread died"@,
                },
            ],
            None => seq![],
        }),
{
    let mut told: Vec<SerialEvent> = Vec::new();
    assert(events(told@) == Seq::<Event>::empty());
    match stream.take() {
        Some(st) => {
            told.push(
                SerialEvent::StreamAborted {
                    sent: st.sent,
                    total: st.lines.len(),
                    reason: "Writer thread died".to_owned(),
                },
            );
            assert(events(told@) == seq![
                Event::StreamAborted {
                    sent: st.sent as nat,
                    total: st.lines@.len(),
                    reason: "Writer thread died"@,
                },
            ]);
        },
        None => {},
    }
    told
}

// ── Laws of streaming ─────────────────────────────────────────────────────────

/// The stream after `n` acknowledgements.
pub open spec fn after_oks(p: Progress, n: nat) -> Progress
    decreases n,
{
    if n == 0 {
        p
    } else {
        step(after_oks(p, (n - 1) as nat), "ok"@).0
    }
}

proof fn lemma_ok_is_no_error()
    ensures
        is_ok("ok"@),
        !is_error("ok"@),
{
    reveal_strlit("ok");
    reveal_strlit("error:");
}

/// A stream sends its first line at once and then, on each acknowledgement, the
/// next one in order; the acknowledgement of the last line completes it.
pub proof fn acknowledged_lines_follow_in_order(lines: Seq<Seq<char>>, n: nat)
    requires
        n < lines.len(),
    ensures
        after_oks(started(lines), n) == (Progress {
            lines,
            next: n as int + 1,
            sent: n as int,
            abort: false,
        }),
        step(after_oks(started(lines), n), "ok"@).1 == (if n + 1 < lines.len() {
            Outcome::SendNext(lines[n as int + 1])
        } else {
            Outcome::Done { total: lines.len() as int }
        }),
    decreases n,
{
    lemma_ok_is_no_error();
    if n > 0 {
        acknowledged_lines_follow_in_order(lines, (n - 1) as nat);
    }
}

/// The lines written in answer to a series of inbound lines, up to the end of
/// the stream.
pub open spec fn written(s: Option<Progress>, inbound: Seq<Seq<char>>) -> Seq<Seq<char>>
    decreases inbound.len(),
{
    if inbound.len() == 0 {
        seq![]
    } else {
        let (next, st) = on_line(s, inbound[0]);
        let first = match st.write {
            Some(Writing::Text(line)) => seq![line],
            _ => seq![],
        };
        first + written(next, inbound.skip(1))
    }
}

/// Whatever the machine answers, the lines written are lines of the job in their
/// order, none left out and none twice, starting behind the line in flight.
pub proof fn written_lines_are_the_job_in_order(p: Progress, inbound: Seq<Seq<char>>)
    requires
        in_flight(Some(p)),
    ensures
        p.next + written(Some(p), inbound).len() <= p.lines.len(),
        written(Some(p), inbound) == p.lines.subrange(
            p.next,
            p.next + written(Some(p), inbound).len(),
        ),
    decreases inbound.len(),
{
    if inbound.len() > 0 {
        let rest = inbound.skip(1);
        let (next, st) = on_line(Some(p), inbound[0]);
        lemma_idle_writes_nothing(rest);
        match next {
            Some(q) => {
                written_lines_are_the_job_in_order(q, rest);
                assert(q.lines == p.lines);
                let w = written(Some(q), rest);
                if q.next == p.next + 1 {
                    assert(seq![p.lines[p.next]] + p.lines.subrange(q.next, q.next + w.len())
                        == p.lines.subrange(p.next, p.next + 1 + w.len()));
                } else {
                    assert(Seq::<Seq<char>>::empty() + w == w);
                }
            },
            None => {
                assert(Seq::<Seq<char>>::empty() + Seq::<Seq<char>>::empty() == Seq::<
                    Seq<char>,
                >::empty());
            },
        }
    }
}

/// Without a stream, no inbound line makes the actor write.
pub proof fn lemma_idle_writes_nothing(inbound: Seq<Seq<char>>)
    ensures
        written(None, inbound) == Seq::<Seq<char>>::empty(),
    decreases inbound.len(),
{
    if inbound.len() > 0 {
        lemma_idle_writes_nothing(inbound.skip(1));
        assert(Seq::<Seq<char>>::empty() + Seq::<Seq<char>>::empty() == Seq::<Seq<char>>::empty());
    }
}

/// A line that is neither `ok` nor an error leaves the stream as it is.
pub proof fn other_lines_leave_the_stream(p: Progress, line: Seq<char>)
    requires
        !is_ok(line),
        !is_error(line),
    ensures
        step(p, line) == (p, Outcome::NotAnAck),
{
}

/// After an abort, nothing more of the job is written.
pub proof fn aborted_stream_writes_nothing(p: Progress, inbound: Seq<Seq<char>>)
    ensures
        written(on_command(Some(p), Some(Command::AbortStream)).0, inbound) == Seq::<
            Seq<char>,
        >::empty(),
{
    lemma_idle_writes_nothing(inbound);
}

/// While a job is streamed, a raw line is refused and a real-time byte passes.
pub proof fn streaming_refuses_lines_and_passes_bytes(p: Progress, line: Seq<char>, byte: u8)
    ensures
        on_command(Some(p), Some(Command::Send(line))).1.write is None,
        on_command(Some(p), Some(Command::Send(line))).0 == Some(p),
        on_command(Some(p), Some(Command::RealTimeByte(byte))).1.write == Some(
            Writing::RawByte(byte),
        ),
        on_command(Some(p), Some(Command::RealTimeByte(byte))).0 == Some(p),
{
}

// ── Laws of the actor ─────────────────────────────────────────────────────────

/// Without a stream, a line to send is written just as it is, with nothing told,
/// and the actor stays idle; a real-time byte is written as it is whether a job
/// is streamed or not.
pub proof fn an_idle_actor_sends_the_line(s: Option<Progress>, line: Seq<char>, byte: u8)
    ensures
        on_command(None, Some(Command::Send(line))).0 is None,
        on_command(None, Some(Command::Send(line))).1.write == Some(Writing::Text(line)),
        on_command(None, Some(Command::Send(line))).1.events.len() == 0,
        on_command(s, Some(Command::RealTimeByte(byte))).0 == s,
        on_command(s, Some(Command::RealTimeByte(byte))).1.write == Some(Writing::RawByte(byte)),
        on_command(s, Some(Command::RealTimeByte(byte))).1.events.len() == 0,
{
}

/// A job that is to be streamed while none is begins with its first line, none of
/// its lines acknowledged; one without lines is done at once.
pub proof fn a_stream_starts_with_its_first_line(lines: Seq<Seq<char>>)
    ensures
        ({
            let (after, st) = on_command(None, Some(Command::Stream(lines)));
            &&& lines.len() > 0 ==> {
                &&& st.write == Some(Writing::Text(lines[0])) && st.starts_stream
                &&& after is Some && after->0.lines == lines
                &&& after->0.next == 1 && after->0.sent == 0 && !after->0.abort
                &&& st.events.len() == 1 && st.events[0] is Info
            }
            &&& lines.len() == 0 ==> {
                &&& after is None && st.write is None && !st.starts_stream
                &&& st.events == seq![Event::StreamDone { total: 0 }]
            }
            &&& !st.stop && !st.shutdown_writer && !st.pause
        }),
{
}

/// A second job is refused while one is streamed: the stream goes on, nothing is
/// written, and the user is told.
pub proof fn one_job_is_streamed_at_a_time(p: Progress, lines: Seq<Seq<char>>, line: Seq<char>)
    ensures
        ({
            let (after, st) = on_command(Some(p), Some(Command::Stream(lines)));
            &&& after == Some(p) && st.write is None && !st.starts_stream && !st.stop
            &&& st.events.len() == 1 && st.events[0] is Info
        }),
        ({
            let (after, st) = on_command(Some(p), Some(Command::Send(line)));
            &&& after == Some(p) && st.write is None && !st.stop
            &&& st.events.len() == 1 && st.events[0] is Info
        }),
{
}

/// An abort ends the stream and tells how far it came; without a stream it does
/// nothing.
pub proof fn an_abort_tells_how_far_the_job_came(p: Progress)
    requires
        p.sent >= 0,
    ensures
        ({
            let (after, st) = on_command(Some(p), Some(Command::AbortStream));
            &&& after is None && st.write is None && !st.stop && !st.shutdown_writer
            &&& st.events.len() == 1
            &&& st.events[0] matches Event::StreamAborted { sent, total, .. } && sent == p.sent
                && total == p.lines.len()
        }),
        ({
            let (after, st) = on_command(None, Some(Command::AbortStream));
            after is None && st.write is None && st.events.len() == 0 && !st.stop
        }),
{
}

/// A disconnection, or the loss of the commands, stops the actor and its writer
/// and is told without a reason; nothing else that is commanded stops it.
pub proof fn only_a_disconnection_stops_the_actor(s: Option<Progress>, c: Option<Command>)
    ensures
        ({
            let st = on_command(s, c).1;
            let over = c is None || c->0 is Disconnect;
            &&& st.stop == over && st.shutdown_writer == over
            &&& over ==> st.events == seq![Event::Disconnected(None::<Seq<char>>)]
                && st.write is None
            &&& !st.pause
        }),
{
}

/// A port that is closed or cannot be read stops the actor with an error and a
/// reason; where nothing arrived it waits; a line neither stops it nor makes it
/// wait.
pub proof fn a_lost_port_stops_the_actor(s: Option<Progress>, r: Reading)
    ensures
        ({
            let (after, st) = on_read(s, r);
            let lost = r is Closed || r is Failed;
            &&& st.stop == lost && st.shutdown_writer == lost
            &&& st.pause == (r is Nothing)
            &&& lost ==> {
                &&& st.events.len() == 2 && st.events[0] is Error
                &&& st.events[1] matches Event::Disconnected(reason) && reason is Some
                &&& st.write is None && after == s
            }
            &&& r is Nothing ==> st.events.len() == 0 && st.write is None && after == s
            &&& !st.starts_stream
        }),
{
}

/// Every line from the machine is told first, without its end, unless it is empty;
/// without a stream that is all.
pub proof fn every_line_is_told(s: Option<Progress>, raw: Seq<char>)
    ensures
        ({
            let (after, st) = on_line(s, raw);
            let line = text::without_line_end(raw);
            &&& line.len() == 0 ==> after == s && st.events.len() == 0 && st.write is None
            &&& line.len() > 0 ==> st.events.len() >= 1 && st.events[0] == Event::Line(line)
            &&& line.len() > 0 && s is None ==> after is None && st.events.len() == 1
                && st.write is None
        }),
{
}

/// An acknowledgement while more lines are left counts the line in flight, tells
/// so, and writes the next line; that of the last line ends the stream, with all
/// lines told as sent.
pub proof fn an_acknowledgement_moves_the_stream_on(p: Progress, raw: Seq<char>)
    requires
        in_flight(Some(p)),
        !p.abort,
        text::without_line_end(raw) == "ok"@,
    ensures
        ({
            let (after, st) = on_line(Some(p), raw);
            &&& p.next < p.lines.len() ==> {
                &&& after is Some && after->0.next == p.next + 1 && after->0.sent == p.next
                &&& after->0.lines == p.lines && !after->0.abort
                &&& st.write == Some(Writing::Text(p.lines[p.next]))
                &&& st.events.len() == 2
                &&& st.events[1] == Event::StreamProgress {
                    sent: p.next as nat,
                    total: p.lines.len(),
                }
            }
            &&& p.next == p.lines.len() ==> {
                &&& after is None && st.write is None
                &&& st.events.len() == 3
                &&& st.events[1] == Event::StreamProgress {
                    sent: p.lines.len(),
                    total: p.lines.len(),
                }
                &&& st.events[2] == Event::StreamDone { total: p.lines.len() }
            }
        }),
{
    lemma_ok_is_no_error();
    reveal_strlit("ok");
}

/// An error of the machine ends the stream: nothing more is written, and the line
/// in flight is told as the one that failed.
pub proof fn an_error_ends_the_stream(p: Progress, raw: Seq<char>)
    requires
        in_flight(Some(p)),
        is_error(text::without_line_end(raw)),
    ensures
        ({
            let (after, st) = on_line(Some(p), raw);
            &&& after is None && st.write is None
            &&& st.events.len() == 2
            &&& st.events[1] matches Event::StreamAborted { sent, total, .. } && sent == p.next
                && total == p.lines.len()
        }),
{
    reveal_strlit("error:");
}

/// An acknowledgement is the word in either case and nothing else; an error begins
/// with its word and a colon, in either case.
pub proof fn answers_are_read_in_either_case(line: Seq<char>)
    ensures
        is_ok(line) <==> line.len() == 2 && (line[0] == 'o' || line[0] == 'O') && (line[1] == 'k'
            || line[1] == 'K'),
        is_error(line) <==> {
            &&& line.len() >= 6
            &&& line[0] == 'e' || line[0] == 'E'
            &&& line[1] == 'r' || line[1] == 'R'
            &&& line[2] == 'r' || line[2] == 'R'
            &&& line[3] == 'o' || line[3] == 'O'
            &&& line[4] == 'r' || line[4] == 'R'
            &&& line[5] == ':'
        },
{
    reveal_strlit("ok");
    reveal_strlit("error:");
    let l = text::lower(line);
    assert(l.len() == line.len());
    assert forall|i: int| 0 <= i < line.len() implies l[i] == text::lower_char(line[i]) by {}
    assert(text::lower("ok"@) =~= "ok"@);
    if is_ok(line) {
        assert(l[0] == 'o' && l[1] == 'k');
    }
    if line.len() == 2 && (line[0] == 'o' || line[0] == 'O') && (line[1] == 'k' || line[1]
        == 'K') {
        assert(l =~= "ok"@);
    }
    if is_error(line) {
        let t = l.take(6);
        assert(t[0] == 'e' && t[1] == 'r' && t[2] == 'r' && t[3] == 'o' && t[4] == 'r' && t[5]
            == ':');
    }
    if line.len() >= 6 && (line[0] == 'e' || line[0] == 'E') && (line[1] == 'r' || line[1] == 'R')
        && (line[2] == 'r' || line[2] == 'R') && (line[3] == 'o' || line[3] == 'O') && (line[4]
        == 'r' || line[4] == 'R') && line[5] == ':' {
        assert(l.take(6) =~= "error:"@);
    }
}

/// The reason for an end by an error holds the machine's words and both counts.
pub proof fn the_reason_tells_the_line(line: Seq<char>, sent: nat, total: nat)
    ensures
        exists|a: Seq<char>, b: Seq<char>|
            error_reason(line, sent, total) == #[trigger] (a + line + b) && text::starts(
                b,
                "' on line "@ + text::decimal(sent) + " of "@,
            ) && b.len() == ("' on line "@ + text::decimal(sent) + " of "@ + text::decimal(
                total,
            )).len() && b.skip(b.len() - text::decimal(total).len()) == text::decimal(total),
{
    let a = "GRBL reported '"@;
    let head = "' on line "@ + text::decimal(sent) + " of "@;
    let b = head + text::decimal(total);
    assert(error_reason(line, sent, total) =~= a + line + b);
    assert(b.take(head.len() as int) =~= head);
    assert(b.skip(b.len() - text::decimal(total).len()) =~= text::decimal(total));
}

/// A line is put on the wire with one line feed behind it, plain characters as
/// their codes; a byte is put there alone.
pub proof fn the_wire_carries_the_line(s: Seq<char>, byte: u8)
    ensures
        wire_bytes(Writing::RawByte(byte)) == seq![byte],
        (forall|i: int| 0 <= i < s.len() ==> (#[trigger] s[i]) as u32 <= 127) ==> {
            &&& wire_bytes(Writing::Text(s)).len() == s.len() + 1
            &&& wire_bytes(Writing::Text(s)).last() == 10
            &&& forall|i: int|
                0 <= i < s.len() ==> #[trigger] wire_bytes(Writing::Text(s))[i] == s[i] as u32
        },
{
    if forall|i: int| 0 <= i < s.len() ==> (#[trigger] s[i]) as u32 <= 127 {
        reveal_strlit("\n");
        lemma_plain_bytes(s + "\n"@);
    }
}

proof fn lemma_plain_bytes(s: Seq<char>)
    requires
        forall|i: int| 0 <= i < s.len() ==> (#[trigger] s[i]) as u32 <= 127,
    ensures
        vstd::utf8::encode_utf8(s).len() == s.len(),
        forall|i: int|
            0 <= i < s.len() ==> #[trigger] vstd::utf8::encode_utf8(s)[i] == s[i] as u32,
    decreases s.len(),
{
    if s.len() > 0 {
        let t = s.drop_first();
        assert forall|i: int| 0 <= i < t.len() implies (#[trigger] t[i]) as u32 <= 127 by {
            assert(t[i] == s[i + 1]);
        }
        lemma_plain_bytes(t);
        let c = s[0] as u32;
        assert(c <= 127 ==> (c & 0x7F) as u8 == c) by (bit_vector);
        let e = vstd::utf8::encode_scalar(c);
        assert(e.len() == 1 && e[0] == c);
        assert forall|i: int| 0 <= i < s.len() implies #[trigger] vstd::utf8::encode_utf8(s)[i]
            == s[i] as u32 by {
            if i > 0 {
                assert(vstd::utf8::encode_utf8(s)[i] == vstd::utf8::encode_utf8(t)[i - 1]);
                assert(t[i - 1] == s[i]);
            }
        }
    }
}

/// A byte that could not be written is told by its two hexadecimal digits, which
/// tell it from every other, and the error ends the complaint.
pub proof fn bytes_are_told_in_hexadecimal(a: nat, b: nat, w: Writing, error: Seq<char>)
    requires
        a < 16,
        b < 16,
    ensures
        hex_digit(a) as u32 == (if a < 10 {
            a + 48
        } else {
            a + 55
        }),
        hex_digit(a) == hex_digit(b) ==> a == b,
        write_complaint(w, error).len() >= error.len() && write_complaint(w, error).skip(
            write_complaint(w, error).len() - error.len(),
        ) == error,
        w matches Writing::RawByte(v) ==> write_complaint(w, error).contains(
            hex_digit((v / 16) as nat),
        ) && write_complaint(w, error).contains(hex_digit((v % 16) as nat)),
{
    let c = write_complaint(w, error);
    assert(c.skip(c.len() - error.len()) =~= error);
    if let Writing::RawByte(v) = w {
        let n = "Write error (real-time byte 0x"@.len() as int;
        assert(c[n] == hex_digit((v / 16) as nat));
        assert(c[n + 1] == hex_digit((v % 16) as nat));
    }
}

/// A device is listed under its path if its name begins like that of a serial
/// port, and else it is not; the order is kept.
pub proof fn serial_ports_are_listed(names: Seq<Seq<char>>, name: Seq<char>)
    ensures
        serial_paths(seq![]) == Seq::<Seq<char>>::empty(),
        serial_paths(names.push(name)) == (if "ttyUSB"@.is_prefix_of(name)
            || "ttyACM"@.is_prefix_of(name) || "ttyS"@.is_prefix_of(name)
            || "ttyAMA"@.is_prefix_of(name) || "rfcomm"@.is_prefix_of(name) {
            serial_paths(names).push("/dev/"@ + name)
        } else {
            serial_paths(names)
        }),
{
    assert(names.push(name).drop_last() =~= names);
    lemma_starts_is_prefix(name, "ttyUSB"@);
    lemma_starts_is_prefix(name, "ttyACM"@);
    lemma_starts_is_prefix(name, "ttyS"@);
    lemma_starts_is_prefix(name, "ttyAMA"@);
    lemma_starts_is_prefix(name, "rfcomm"@);
}

proof fn lemma_starts_is_prefix(s: Seq<char>, p: Seq<char>)
    ensures
        text::starts(s, p) <==> p.is_prefix_of(s),
{
    if p.len() <= s.len() {
        assert(s.take(p.len() as int) =~= s.subrange(0, p.len() as int));
    }
}

/// A path is accepted if it leads to a device under `/dev/` that exists, and the
/// complaint about one that does not exist names it.
pub proof fn only_devices_are_accepted(path: Seq<char>, exists: bool)
    ensures
        port_complaint(path, exists) is None <==> "/dev/"@.is_prefix_of(path) && exists,
        "/dev/"@.is_prefix_of(path) && !exists ==> port_complaint(path, exists) == Some(
            "Device "@ + path + " does not exist"@,
        ),
        !("/dev/"@.is_prefix_of(path)) ==> port_complaint(path, exists) == Some(
            "Port path must start with /dev/"@,
        ),
{
    lemma_starts_is_prefix(path, "/dev/"@);
}

/// Texts are ordered by the first character in which they differ; one that goes on
/// where the other ends comes behind it.
pub proof fn the_first_difference_decides(
    head: Seq<char>,
    a: char,
    b: char,
    x: Seq<char>,
    y: Seq<char>,
)
    ensures
        a < b ==> in_order(head + seq![a] + x, head + seq![b] + y) && !in_order(
            head + seq![b] + y,
            head + seq![a] + x,
        ),
        in_order(head, head + x),
        !in_order(head + seq![a] + x, head),
    decreases head.len(),
{
    let (u, v, w) = (head + seq![a] + x, head + seq![b] + y, head + x);
    if head.len() > 0 {
        let t = head.skip(1);
        the_first_difference_decides(t, a, b, x, y);
        assert(u.skip(1) =~= t + seq![a] + x);
        assert(v.skip(1) =~= t + seq![b] + y);
        assert(w.skip(1) =~= t + x);
    }
}

/// A verdict is seen with its reason, and a stream with all that it holds.
pub proof fn verdicts_carry_their_reason(e: String, st: StreamState)
    ensures
        complaint(Ok(())) is None,
        complaint(Err(e)) == Some(e@),
        progress(Some(st)) == Some(st@),
        progress(None) is None,
{
}

/// A job that was started has its first line in flight, however short it is, and
/// no job at all is as good.
pub proof fn a_started_job_is_in_flight(lines: Seq<Seq<char>>)
    requires
        lines.len() >= 1,
    ensures
        in_flight(Some(started(lines))),
        in_flight(None),
{
}

/// Of two names that are listed in order, the first does not come behind the
/// second; in a longer list this holds of any two.
pub proof fn listed_names_are_in_order(v: Seq<Seq<char>>, i: int, j: int)
    requires
        0 <= i <= j < v.len(),
    ensures
        sorted(v) ==> in_order(v[i], v[j]),
        sorted(v) ==> sorted(v.subrange(i, j + 1)),
{
    if sorted(v) {
        let w = v.subrange(i, j + 1);
        assert forall|a: int, b: int| 0 <= a <= b < w.len() implies in_order(
            #[trigger] w[a],
            #[trigger] w[b],
        ) by {
            assert(in_order(v[i + a], v[i + b]));
        }
    }
}

} // verus!
