//! What a GRBL controller says: status reports and the other kinds of line.
//!
//! A status report has the form
//!
//! ```text
//! <State|MPos:x,y,z|WPos:x,y,z|FS:feed,speed|Pn:XYZ|Ov:feed,rapid,spindle|Bf:blocks,bytes|Ln:N|WCO:x,y,z>
//! ```
//!
//! and need not hold all of these fields.  Numbers with a fraction are kept as
//! the texts that the controller wrote.
use vstd::prelude::*;

use crate::binary64::Real;
use crate::message::{Amount, Glyph, Message, Quantity};
use crate::message;
use crate::text;

verus! {

// ── Machine state ─────────────────────────────────────────────────────────────

/// The states of the machine.
#[derive(Debug, PartialEq, Eq)]
pub enum MachineState {
    Idle,
    Run,
    /// `Hold:0` is a completed hold, `Hold:1` one that is being initiated.
    Hold(u8),
    Jog,
    Alarm,
    Door(u8),
    Check,
    Home,
    Sleep,
    /// A state not among the above.
    Unknown(String),
}

/// A machine state, with texts by their characters.
pub enum State {
    Idle,
    Run,
    Hold(u8),
    Jog,
    Alarm,
    Door(u8),
    Check,
    Home,
    Sleep,
    Unknown(Seq<char>),
}

impl View for MachineState {
    type V = State;

    open spec fn view(&self) -> State {
        match *self {
            MachineState::Idle => State::Idle,
            MachineState::Run => State::Run,
            MachineState::Hold(n) => State::Hold(n),
            MachineState::Jog => State::Jog,
            MachineState::Alarm => State::Alarm,
            MachineState::Door(n) => State::Door(n),
            MachineState::Check => State::Check,
            MachineState::Home => State::Home,
            MachineState::Sleep => State::Sleep,
            MachineState::Unknown(s) => State::Unknown(s@),
        }
    }
}

/// A `u8` in decimal, or zero where the text is none.
pub open spec fn u8_or_zero(s: Seq<char>) -> u8 {
    match text::natural_upto(s, 255) {
        Some(n) => n as u8,
        None => 0,
    }
}

/// A `u16` in decimal, or zero where the text is none.
pub open spec fn u16_or_zero(s: Seq<char>) -> u16 {
    match text::natural_upto(s, 65535) {
        Some(n) => n as u16,
        None => 0,
    }
}

/// The state that a report names; a sub-code may follow a colon.
pub open spec fn state_of(s: Seq<char>) -> State {
    let (base, sub) = match text::split_first(s, ':') {
        Some(pair) => pair,
        None => (s, "0"@),
    };
    let n = u8_or_zero(sub);
    if base == "Idle"@ {
        State::Idle
    } else if base == "Run"@ {
        State::Run
    } else if base == "Hold"@ {
        State::Hold(n)
    } else if base == "Jog"@ {
        State::Jog
    } else if base == "Alarm"@ {
        State::Alarm
    } else if base == "Door"@ {
        State::Door(n)
    } else if base == "Check"@ {
        State::Check
    } else if base == "Home"@ {
        State::Home
    } else if base == "Sleep"@ {
        State::Sleep
    } else {
        State::Unknown(base)
    }
}

impl State {
    /// A short label for display.
    pub open spec fn label(self) -> Seq<char> {
        match self {
            State::Idle => "Idle"@,
            State::Run => "Run"@,
            State::Hold(n) => "Hold:"@ + text::decimal(n as nat),
            State::Jog => "Jog"@,
            State::Alarm => "ALARM"@,
            State::Door(n) => "Door:"@ + text::decimal(n as nat),
            State::Check => "Check"@,
            State::Home => "Home"@,
            State::Sleep => "Sleep"@,
            State::Unknown(s) => s,
        }
    }
}

impl Clone for MachineState {
    fn clone(&self) -> (r: MachineState)
        ensures
            r@ == self@,
    {
        match self {
            MachineState::Idle => MachineState::Idle,
            MachineState::Run => MachineState::Run,
            MachineState::Hold(n) => MachineState::Hold(*n),
            MachineState::Jog => MachineState::Jog,
            MachineState::Alarm => MachineState::Alarm,
            MachineState::Door(n) => MachineState::Door(*n),
            MachineState::Check => MachineState::Check,
            MachineState::Home => MachineState::Home,
            MachineState::Sleep => MachineState::Sleep,
            MachineState::Unknown(s) => MachineState::Unknown(s.clone()),
        }
    }
}

impl MachineState {
    /// The state that a report names.
    pub fn parse(s: &str) -> (r: MachineState)
        ensures
            r@ == state_of(s@),
    {
        let (base, sub) = match text::split_once(s, ':') {
            Some(pair) => pair,
            None => (s.to_owned(), "0".to_owned()),
        };
        let n: u8 = match text::parse_natural(sub.as_str(), 255) {
            Some(v) => v as u8,
            None => 0,
        };
        let b = base.as_str();
        if text::same(b, "Idle") {
            MachineState::Idle
        } else if text::same(b, "Run") {
            MachineState::Run
        } else if text::same(b, "Hold") {
            MachineState::Hold(n)
        } else if text::same(b, "Jog") {
            MachineState::Jog
        } else if text::same(b, "Alarm") {
            MachineState::Alarm
        } else if text::same(b, "Door") {
            MachineState::Door(n)
        } else if text::same(b, "Check") {
            MachineState::Check
        } else if text::same(b, "Home") {
            MachineState::Home
        } else if text::same(b, "Sleep") {
            MachineState::Sleep
        } else {
            MachineState::Unknown(base)
        }
    }

    /// A short label for display.
    pub fn label(&self) -> (r: String)
        ensures
            r@ == self@.label(),
    {
        match self {
            MachineState::Idle => "Idle".to_owned(),
            MachineState::Run => "Run".to_owned(),
            MachineState::Hold(n) => text::joined("Hold:", text::decimal_of(*n as u64).as_str()),
            MachineState::Jog => "Jog".to_owned(),
            MachineState::Alarm => "ALARM".to_owned(),
            MachineState::Door(n) => text::joined("Door:", text::decimal_of(*n as u64).as_str()),
            MachineState::Check => "Check".to_owned(),
            MachineState::Home => "Home".to_owned(),
            MachineState::Sleep => "Sleep".to_owned(),
            MachineState::Unknown(s) => s.clone(),
        }
    }

    /// Whether it is safe to send motion commands.
    pub fn is_ready(&self) -> (r: bool)
        ensures
            r == (self@ is Idle || self@ is Run || self@ is Jog),
    {
        match self {
            MachineState::Idle | MachineState::Run | MachineState::Jog => true,
            _ => false,
        }
    }

    /// Whether the machine is in the alarm state.
    pub fn is_alarm(&self) -> (r: bool)
        ensures
            r == (self@ is Alarm),
    {
        match self {
            MachineState::Alarm => true,
            _ => false,
        }
    }
}

// ── Positions ─────────────────────────────────────────────────────────────────

/// A position on three axes.
#[derive(Debug, PartialEq)]
pub struct Pos3 {
    pub x: Quantity,
    pub y: Quantity,
    pub z: Quantity,
}

/// A position, with texts by their characters.
pub struct Position {
    pub x: Amount,
    pub y: Amount,
    pub z: Amount,
}

impl View for Pos3 {
    type V = Position;

    open spec fn view(&self) -> Position {
        Position { x: self.x.amount(), y: self.y.amount(), z: self.z.amount() }
    }
}

impl Clone for Pos3 {
    fn clone(&self) -> (r: Pos3)
        ensures
            r@ == self@,
    {
        Pos3 { x: self.x.clone(), y: self.y.clone(), z: self.z.clone() }
    }
}

/// The number that `s` denotes once trimmed, if it denotes one.
pub open spec fn number_of(s: Seq<char>) -> Option<Amount> {
    if text::is_number(text::trimmed(s)) {
        Some(Amount::Written(text::trimmed(s)))
    } else {
        None
    }
}

/// The view of an optional quantity.
pub open spec fn amount_of(q: Option<Quantity>) -> Option<Amount> {
    match q {
        Some(v) => Some(v.amount()),
        None => None,
    }
}

fn parse_number(s: &str) -> (r: Option<Quantity>)
    ensures
        amount_of(r) == number_of(s@),
{
    let t = text::trim(s);
    if text::denotes_number(t.as_str()) {
        Some(Quantity::Written(t))
    } else {
        None
    }
}

/// Two or three numbers between commas; the third is zero where it is absent or
/// no number.
pub open spec fn position_of(s: Seq<char>) -> Option<Position> {
    let parts = text::splitn(s, 3, ',');
    if parts.len() < 2 {
        None
    } else {
        match (number_of(parts[0]), number_of(parts[1])) {
            (Some(x), Some(y)) => Some(
                Position {
                    x,
                    y,
                    z: if parts.len() > 2 && number_of(parts[2]) is Some {
                        number_of(parts[2])->Some_0
                    } else {
                        Amount::Exact(Real::spec_zero())
                    },
                },
            ),
            _ => None,
        }
    }
}

/// The view of an optional position.
pub open spec fn place_of(p: Option<Pos3>) -> Option<Position> {
    match p {
        Some(v) => Some(v@),
        None => None,
    }
}

impl Position {
    /// The three coordinates, aligned.
    pub open spec fn shown(self) -> Seq<Glyph> {
        message::plain("X"@) + message::padded(self.x, 3, 8) + message::plain("  Y"@)
            + message::padded(self.y, 3, 8) + message::plain("  Z"@) + message::padded(self.z, 3, 8)
    }

    /// This position relative to an offset.
    pub open spec fn relative_to(self, offset: Position) -> Position {
        Position {
            x: message::minus(self.x, offset.x),
            y: message::minus(self.y, offset.y),
            z: message::minus(self.z, offset.z),
        }
    }
}

impl Pos3 {
    /// The position that `s` denotes.
    pub fn parse(s: &str) -> (r: Option<Pos3>)
        ensures
            place_of(r) == position_of(s@),
    {
        let parts = text::split_n(s, 3, ',');
        let ghost shown = text::texts(parts@);
        if parts.len() < 2 {
            return None;
        }
        assert(shown[0] == parts@[0]@ && shown[1] == parts@[1]@);
        let x = match parse_number(parts[0].as_str()) {
            Some(v) => v,
            None => {
                return None;
            },
        };
        let y = match parse_number(parts[1].as_str()) {
            Some(v) => v,
            None => {
                return None;
            },
        };
        let z = if parts.len() > 2 {
            assert(shown[2] == parts@[2]@);
            match parse_number(parts[2].as_str()) {
                Some(v) => v,
                None => Quantity::Exact(Real::zero()),
            }
        } else {
            Quantity::Exact(Real::zero())
        };
        Some(Pos3 { x, y, z })
    }

    /// The three coordinates, aligned.
    pub fn shown(&self) -> (r: Message)
        ensures
            r@ == self@.shown(),
    {
        Message::text("X").then_padded(&self.x, 3, 8).then_text("  Y").then_padded(
            &self.y,
            3,
            8,
        ).then_text("  Z").then_padded(&self.z, 3, 8)
    }

    fn less(&self, offset: &Pos3) -> (r: Pos3)
        ensures
            r@ == self@.relative_to(offset@),
    {
        Pos3 {
            x: Quantity::Minus(Box::new(self.x.clone()), Box::new(offset.x.clone())),
            y: Quantity::Minus(Box::new(self.y.clone()), Box::new(offset.y.clone())),
            z: Quantity::Minus(Box::new(self.z.clone()), Box::new(offset.z.clone())),
        }
    }
}

// ── Pins, overrides, buffers ──────────────────────────────────────────────────

/// The input pins that are active.
#[derive(Debug, Clone, Copy, PartialEq, Eq, Structural)]
pub struct ActivePins {
    pub x_limit: bool,
    pub y_limit: bool,
    pub z_limit: bool,
    pub probe: bool,
    pub door: bool,
    pub hard_reset: bool,
    pub feed_hold: bool,
    pub cycle_start: bool,
}

/// The pins whose letters occur in the text.
pub open spec fn pins_of(s: Seq<char>) -> ActivePins {
    ActivePins {
        x_limit: s.contains('X'),
        y_limit: s.contains('Y'),
        z_limit: s.contains('Z'),
        probe: s.contains('P'),
        door: s.contains('D'),
        hard_reset: s.contains('R'),
        feed_hold: s.contains('H'),
        cycle_start: s.contains('S'),
    }
}

impl ActivePins {
    /// The pins whose letters occur in the text.
    pub fn parse(s: &str) -> (r: ActivePins)
        ensures
            r == pins_of(s@),
    {
        ActivePins {
            x_limit: text::contains(s, 'X'),
            y_limit: text::contains(s, 'Y'),
            z_limit: text::contains(s, 'Z'),
            probe: text::contains(s, 'P'),
            door: text::contains(s, 'D'),
            hard_reset: text::contains(s, 'R'),
            feed_hold: text::contains(s, 'H'),
            cycle_start: text::contains(s, 'S'),
        }
    }
}

/// Override percentages.
#[derive(Debug, Clone, Copy, PartialEq, Eq, Structural)]
pub struct Overrides {
    pub feed: u8,
    pub rapid: u8,
    pub spindle: u8,
}

/// Three percentages between commas.
pub open spec fn overrides_of(s: Seq<char>) -> Option<Overrides> {
    let parts = text::splitn(s, 3, ',');
    if parts.len() < 3 {
        None
    } else {
        match (
            text::natural_upto(text::trimmed(parts[0]), 255),
            text::natural_upto(text::trimmed(parts[1]), 255),
            text::natural_upto(text::trimmed(parts[2]), 255),
        ) {
            (Some(a), Some(b), Some(c)) => Some(
                Overrides { feed: a as u8, rapid: b as u8, spindle: c as u8 },
            ),
            _ => None,
        }
    }
}

impl Default for Overrides {
    fn default() -> (r: Overrides)
        ensures
            r.feed == 100 && r.rapid == 100 && r.spindle == 100,
    {
        Overrides { feed: 100, rapid: 100, spindle: 100 }
    }
}

impl Overrides {
    /// The percentages that the text denotes.
    pub fn parse(s: &str) -> (r: Option<Overrides>)
        ensures
            r == overrides_of(s@),
    {
        let parts = text::split_n(s, 3, ',');
        let ghost shown = text::texts(parts@);
        if parts.len() < 3 {
            return None;
        }
        assert(shown[0] == parts@[0]@ && shown[1] == parts@[1]@ && shown[2] == parts@[2]@);
        match (
            text::parse_natural(text::trim(parts[0].as_str()).as_str(), 255),
            text::parse_natural(text::trim(parts[1].as_str()).as_str(), 255),
            text::parse_natural(text::trim(parts[2].as_str()).as_str(), 255),
        ) {
            (Some(a), Some(b), Some(c)) => Some(
                Overrides { feed: a as u8, rapid: b as u8, spindle: c as u8 },
            ),
            _ => None,
        }
    }
}

/// What is free in the planner and in the receive buffer.
#[derive(Debug, Clone, Copy, PartialEq, Eq, Structural)]
pub struct BufferState {
    pub available_blocks: u16,
    pub available_bytes: u16,
}

/// Two numbers with a comma between them.
pub open spec fn buffer_of(s: Seq<char>) -> Option<BufferState> {
    match text::split_first(s, ',') {
        Some((a, b)) => match (
            text::natural_upto(text::trimmed(a), 65535),
            text::natural_upto(text::trimmed(b), 65535),
        ) {
            (Some(m), Some(n)) => Some(
                BufferState { available_blocks: m as u16, available_bytes: n as u16 },
            ),
            _ => None,
        },
        None => None,
    }
}

impl BufferState {
    /// The buffer state that the text denotes.
    pub fn parse(s: &str) -> (r: Option<BufferState>)
        ensures
            r == buffer_of(s@),
    {
        match text::split_once(s, ',') {
            Some((a, b)) => match (
                text::parse_natural(text::trim(a.as_str()).as_str(), 65535),
                text::parse_natural(text::trim(b.as_str()).as_str(), 65535),
            ) {
                (Some(m), Some(n)) => Some(
                    BufferState { available_blocks: m as u16, available_bytes: n as u16 },
                ),
                _ => None,
            },
            None => None,
        }
    }
}

// ── Status reports ────────────────────────────────────────────────────────────

/// A status report.
#[derive(Debug, PartialEq)]
pub struct GrblStatus {
    pub state: MachineState,
    /// Position in machine coordinates.
    pub mpos: Option<Pos3>,
    /// Position in work coordinates.
    pub wpos: Option<Pos3>,
    /// Work coordinate offset.
    pub wco: Option<Pos3>,
    /// Current feed rate in mm/min.
    pub feed: Option<Quantity>,
    /// Current laser power.
    pub speed: Option<Quantity>,
    pub pins: Option<ActivePins>,
    pub overrides: Option<Overrides>,
    pub buffer: Option<BufferState>,
    /// The line executed last.
    pub line_number: Option<u32>,
}

/// A status report, with texts by their characters.
pub struct Status {
    pub state: State,
    pub mpos: Option<Position>,
    pub wpos: Option<Position>,
    pub wco: Option<Position>,
    pub feed: Option<Amount>,
    pub speed: Option<Amount>,
    pub pins: Option<ActivePins>,
    pub overrides: Option<Overrides>,
    pub buffer: Option<BufferState>,
    pub line_number: Option<u32>,
}

impl View for GrblStatus {
    type V = Status;

    open spec fn view(&self) -> Status {
        Status {
            state: self.state@,
            mpos: place_of(self.mpos),
            wpos: place_of(self.wpos),
            wco: place_of(self.wco),
            feed: amount_of(self.feed),
            speed: amount_of(self.speed),
            pins: self.pins,
            overrides: self.overrides,
            buffer: self.buffer,
            line_number: self.line_number,
        }
    }
}

fn copy_place(p: &Option<Pos3>) -> (r: Option<Pos3>)
    ensures
        place_of(r) == place_of(*p),
{
    match p {
        Some(v) => Some(v.clone()),
        None => None,
    }
}

fn copy_amount(q: &Option<Quantity>) -> (r: Option<Quantity>)
    ensures
        amount_of(r) == amount_of(*q),
{
    match q {
        Some(v) => Some(v.clone()),
        None => None,
    }
}

impl Clone for GrblStatus {
    fn clone(&self) -> (r: GrblStatus)
        ensures
            r@ == self@,
    {
        GrblStatus {
            state: self.state.clone(),
            mpos: copy_place(&self.mpos),
            wpos: copy_place(&self.wpos),
            wco: copy_place(&self.wco),
            feed: copy_amount(&self.feed),
            speed: copy_amount(&self.speed),
            pins: self.pins,
            overrides: self.overrides,
            buffer: self.buffer,
            line_number: self.line_number,
        }
    }
}

impl Status {
    /// The work position: as reported, else the machine position less the work
    /// offset, else the machine position where no offset is known.
    pub open spec fn work_pos(self) -> Option<Position> {
        match (self.wpos, self.mpos, self.wco) {
            (Some(w), _, _) => Some(w),
            (None, Some(m), Some(offset)) => Some(m.relative_to(offset)),
            (None, Some(m), None) => Some(m),
            _ => None,
        }
    }
}

impl GrblStatus {
    /// The work position: as reported, else the machine position less the work
    /// offset, else the machine position where no offset is known.
    pub fn work_pos(&self) -> (r: Option<Pos3>)
        ensures
            place_of(r) == self@.work_pos(),
    {
        match (&self.wpos, &self.mpos, &self.wco) {
            (Some(w), _, _) => Some(w.clone()),
            (None, Some(m), Some(offset)) => Some(m.less(offset)),
            (None, Some(m), None) => Some(m.clone()),
            _ => None,
        }
    }
}

/// A report of a state and nothing else.
pub open spec fn bare(state: State) -> Status {
    Status {
        state,
        mpos: None,
        wpos: None,
        wco: None,
        feed: None,
        speed: None,
        pins: None,
        overrides: None,
        buffer: None,
        line_number: None,
    }
}

/// A `u32` in decimal.
pub open spec fn u32_of(s: Seq<char>) -> Option<u32> {
    match text::natural_upto(s, 0xffff_ffff) {
        Some(n) => Some(n as u32),
        None => None,
    }
}

/// A report with one more field taken into account.  A field that is not known
/// changes nothing; one that is known but malformed counts as absent.
pub open spec fn with_field(st: Status, field: Seq<char>) -> Status {
    if let Some(val) = text::after(field, "MPos:"@) {
        Status { mpos: position_of(val), ..st }
    } else if let Some(val) = text::after(field, "WPos:"@) {
        Status { wpos: position_of(val), ..st }
    } else if let Some(val) = text::after(field, "WCO:"@) {
        Status { wco: position_of(val), ..st }
    } else if let Some(val) = text::after(field, "FS:"@) {
        match text::split_first(val, ',') {
            Some((f, s)) => Status { feed: number_of(f), speed: number_of(s), ..st },
            None => Status { feed: number_of(val), speed: None, ..st },
        }
    } else if let Some(val) = text::after(field, "F:"@) {
        Status { feed: number_of(val), ..st }
    } else if let Some(val) = text::after(field, "Pn:"@) {
        Status { pins: Some(pins_of(val)), ..st }
    } else if let Some(val) = text::after(field, "Ov:"@) {
        Status { overrides: overrides_of(val), ..st }
    } else if let Some(val) = text::after(field, "Bf:"@) {
        Status { buffer: buffer_of(val), ..st }
    } else if let Some(val) = text::after(field, "Ln:"@) {
        Status { line_number: u32_of(text::trimmed(val)), ..st }
    } else {
        st
    }
}

/// A report with more fields taken into account, in order.
pub open spec fn with_fields(st: Status, fields: Seq<Seq<char>>) -> Status
    decreases fields.len(),
{
    if fields.len() == 0 {
        st
    } else {
        with_field(with_fields(st, fields.drop_last()), fields.last())
    }
}

/// The report between the angle brackets: the state, then fields, with bars
/// between them.
pub open spec fn status_of(inner: Seq<char>) -> Status {
    let fields = text::split(inner, '|');
    with_fields(bare(state_of(fields[0])), fields.skip(1))
}

fn apply_field(st: &mut GrblStatus, field: &str)
    ensures
        final(st)@ == with_field(old(st)@, field@),
{
    if let Some(val) = text::strip_prefix(field, "MPos:") {
        st.mpos = Pos3::parse(val.as_str());
    } else if let Some(val) = text::strip_prefix(field, "WPos:") {
        st.wpos = Pos3::parse(val.as_str());
    } else if let Some(val) = text::strip_prefix(field, "WCO:") {
        st.wco = Pos3::parse(val.as_str());
    } else if let Some(val) = text::strip_prefix(field, "FS:") {
        match text::split_once(val.as_str(), ',') {
            Some((f, s)) => {
                st.feed = parse_number(f.as_str());
                st.speed = parse_number(s.as_str());
            },
            None => {
                st.feed = parse_number(val.as_str());
                st.speed = None;
            },
        }
    } else if let Some(val) = text::strip_prefix(field, "F:") {
        st.feed = parse_number(val.as_str());
    } else if let Some(val) = text::strip_prefix(field, "Pn:") {
        st.pins = Some(ActivePins::parse(val.as_str()));
    } else if let Some(val) = text::strip_prefix(field, "Ov:") {
        st.overrides = Overrides::parse(val.as_str());
    } else if let Some(val) = text::strip_prefix(field, "Bf:") {
        st.buffer = BufferState::parse(val.as_str());
    } else if let Some(val) = text::strip_prefix(field, "Ln:") {
        st.line_number = match text::parse_natural(text::trim(val.as_str()).as_str(), 0xffff_ffff) {
            Some(n) => Some(n as u32),
            None => None,
        };
    }
}

/// The report between the angle brackets.
pub fn parse_status(inner: &str) -> (r: GrblStatus)
    ensures
        r@ == status_of(inner@),
{
    let fields = text::split_on(inner, '|');
    let ghost all = text::texts(fields@);
    proof {
        text::lemma_split_nonempty(inner@, '|');
    }
    assert(all[0] == fields@[0]@);
    let state = MachineState::parse(fields[0].as_str());
    let ghost shown = state@;
    let mut st = GrblStatus {
        state,
        mpos: None,
        wpos: None,
        wco: None,
        feed: None,
        speed: None,
        pins: None,
        overrides: None,
        buffer: None,
        line_number: None,
    };
    let mut i: usize = 1;
    assert(all.skip(1).take(0) == Seq::<Seq<char>>::empty());
    while i < fields.len()
        invariant
            1 <= i <= fields@.len(),
            all == text::texts(fields@),
            st@ == with_fields(bare(shown), all.skip(1).take(i - 1)),
        decreases fields@.len() - i,
    {
        assert(all.skip(1).take(i as int).drop_last() == all.skip(1).take(i - 1));
        assert(all.skip(1).take(i as int).last() == fields@[i as int]@);
        apply_field(&mut st, fields[i].as_str());
        i = i + 1;
    }
    assert(all.skip(1).take(i - 1) == all.skip(1));
    st
}

// ── Lines ─────────────────────────────────────────────────────────────────────

/// The kinds of line that the controller sends.
#[derive(Debug, PartialEq)]
pub enum GrblLine {
    /// `<State|…>`: a status report.
    Status(GrblStatus),
    /// `ok`
    Okay,
    /// `error:N`
    Error(u16),
    /// `ALARM:N`
    Alarm(u16),
    /// `[MSG:…]`: a message.
    Msg(String),
    /// `[GC:…]`: the state of the G-code parser.
    GcState(String),
    /// `[HLP:…]`: help.
    Help(String),
    /// `[PRB:x,y,z:result]`: the result of probing.
    Probe { pos: Pos3, success: bool },
    /// `Grbl …`: the welcome banner.
    Banner(String),
    /// `$N=value`: a setting.
    Setting { key: String, value: String },
    /// Anything else.
    Other(String),
}

/// A line, with texts by their characters.
pub enum Said {
    Status(Status),
    Okay,
    Error(u16),
    Alarm(u16),
    Msg(Seq<char>),
    GcState(Seq<char>),
    Help(Seq<char>),
    Probe { pos: Position, success: bool },
    Banner(Seq<char>),
    Setting { key: Seq<char>, value: Seq<char> },
    Other(Seq<char>),
}

impl View for GrblLine {
    type V = Said;

    open spec fn view(&self) -> Said {
        match *self {
            GrblLine::Status(st) => Said::Status(st@),
            GrblLine::Okay => Said::Okay,
            GrblLine::Error(n) => Said::Error(n),
            GrblLine::Alarm(n) => Said::Alarm(n),
            GrblLine::Msg(s) => Said::Msg(s@),
            GrblLine::GcState(s) => Said::GcState(s@),
            GrblLine::Help(s) => Said::Help(s@),
            GrblLine::Probe { pos, success } => Said::Probe { pos: pos@, success },
            GrblLine::Banner(s) => Said::Banner(s@),
            GrblLine::Setting { key, value } => Said::Setting { key: key@, value: value@ },
            GrblLine::Other(s) => Said::Other(s@),
        }
    }
}

/// The text between an opening and a closing character, if `s` has them.
pub open spec fn between(s: Seq<char>, open: char, close: char) -> Option<Seq<char>> {
    if s.len() >= 2 && s[0] == open && s.last() == close {
        Some(s.subrange(1, s.len() - 1))
    } else {
        None
    }
}

/// The text between an opening and a closing character.
fn inside(s: &str, open: char, close: char) -> (r: Option<String>)
    ensures
        text::opt(r) == between(s@, open, close),
{
    let v = text::to_chars(s);
    if v.len() >= 2 && v[0] == open && v[v.len() - 1] == close {
        Some(text::string_of(&v, 1, v.len() - 1))
    } else {
        None
    }
}

/// What a bracketed line says.
pub open spec fn bracketed(inner: Seq<char>) -> Said {
    if let Some(rest) = text::after(inner, "MSG:"@) {
        Said::Msg(rest)
    } else if let Some(rest) = text::after(inner, "GC:"@) {
        Said::GcState(rest)
    } else if let Some(rest) = text::after(inner, "HLP:"@) {
        Said::Help(rest)
    } else if let Some(probe) = probe_of(inner) {
        probe
    } else {
        Said::Msg(inner)
    }
}

/// A probing result: coordinates, a colon and `1` for success.
pub open spec fn probe_of(inner: Seq<char>) -> Option<Said> {
    match text::after(inner, "PRB:"@) {
        Some(rest) => match text::split_last(rest, ':') {
            Some((coords, result)) => match position_of(coords) {
                Some(pos) => Some(Said::Probe { pos, success: text::trimmed(result) == "1"@ }),
                None => None,
            },
            None => None,
        },
        None => None,
    }
}

/// A setting: a `$`, and a key and a value with the first `=` between them.
pub open spec fn setting_of(s: Seq<char>) -> Option<Said> {
    if s.len() > 0 && s[0] == '$' {
        match text::split_first(s, '=') {
            Some((key, value)) => Some(Said::Setting { key, value }),
            None => None,
        }
    } else {
        None
    }
}

/// What a line says.
pub open spec fn said(raw: Seq<char>) -> Said {
    let s = text::trimmed(raw);
    if let Some(inner) = between(s, '<', '>') {
        Said::Status(status_of(inner))
    } else if text::lower(s) == text::lower("ok"@) {
        Said::Okay
    } else if let Some(rest) = text::after(s, "error:"@) {
        Said::Error(u16_or_zero(text::trimmed(rest)))
    } else if let Some(rest) = text::after(s, "ALARM:"@) {
        Said::Alarm(u16_or_zero(text::trimmed(rest)))
    } else if let Some(inner) = between(s, '[', ']') {
        bracketed(inner)
    } else if text::starts(s, "Grbl"@) {
        Said::Banner(s)
    } else if let Some(setting) = setting_of(s) {
        setting
    } else {
        Said::Other(s)
    }
}

fn code_of(s: &str) -> (r: u16)
    ensures
        r == u16_or_zero(text::trimmed(s@)),
{
    match text::parse_natural(text::trim(s).as_str(), 65535) {
        Some(n) => n as u16,
        None => 0,
    }
}

fn parse_bracketed(inner: &str) -> (r: GrblLine)
    ensures
        r@ == bracketed(inner@),
{
    if let Some(rest) = text::strip_prefix(inner, "MSG:") {
        return GrblLine::Msg(rest);
    }
    if let Some(rest) = text::strip_prefix(inner, "GC:") {
        return GrblLine::GcState(rest);
    }
    if let Some(rest) = text::strip_prefix(inner, "HLP:") {
        return GrblLine::Help(rest);
    }
    if let Some(rest) = text::strip_prefix(inner, "PRB:") {
        if let Some((coords, result)) = text::rsplit_once(rest.as_str(), ':') {
            if let Some(pos) = Pos3::parse(coords.as_str()) {
                let success = text::same(text::trim(result.as_str()).as_str(), "1");
                return GrblLine::Probe { pos, success };
            }
        }
    }
    GrblLine::Msg(inner.to_owned())
}

/// What a line from the controller comes to in a message.
pub open spec fn summary_of(said: Said) -> Seq<Glyph> {
    match said {
        Said::Status(st) => message::plain("[status] "@) + message::plain(st.state.label())
            + message::plain(" | WPos: "@) + (match st.work_pos() {
            Some(p) => p.shown(),
            None => message::plain("?"@),
        }),
        Said::Okay => message::plain("ok"@),
        Said::Error(n) => error_line(n),
        Said::Alarm(n) => alarm_line(n),
        Said::Msg(s) => message::plain("[MSG] "@) + message::plain(s),
        Said::GcState(s) => message::plain("[GC] "@) + message::plain(s),
        Said::Help(s) => message::plain("[HLP] "@) + message::plain(s),
        Said::Probe { pos, success } => message::plain("[PRB] "@) + pos.shown() + message::plain(
            " "@,
        ) + message::plain(if success {
            "OK"@
        } else {
            "FAIL"@
        }),
        Said::Banner(s) => message::plain(s),
        Said::Setting { key, value } => message::plain(key) + message::plain("="@)
            + message::plain(value),
        Said::Other(s) => message::plain(s),
    }
}

/// An error code with its description.
pub open spec fn error_line(code: u16) -> Seq<Glyph> {
    message::plain("error:"@) + message::count(code as nat) + message::plain(" – "@)
        + message::plain(error_text(code))
}

/// An alarm code with its description.
pub open spec fn alarm_line(code: u16) -> Seq<Glyph> {
    message::plain("ALARM:"@) + message::count(code as nat) + message::plain(" – "@)
        + message::plain(alarm_text(code))
}

/// An error code with its description.
pub fn error_message(code: u16) -> (r: Message)
    ensures
        r@ == error_line(code),
{
    Message::text("error:").then_count(code as u64).then_text(" – ").then_text(
        error_description(code),
    )
}

/// An alarm code with its description.
pub fn alarm_message(code: u16) -> (r: Message)
    ensures
        r@ == alarm_line(code),
{
    Message::text("ALARM:").then_count(code as u64).then_text(" – ").then_text(
        alarm_description(code),
    )
}

impl GrblLine {
    /// Classify and parse a line received from the controller.
    pub fn parse(raw: &str) -> (r: GrblLine)
        ensures
            r@ == said(raw@),
    {
        let line = text::trim(raw);
        let s = line.as_str();
        if let Some(inner) = inside(s, '<', '>') {
            return GrblLine::Status(parse_status(inner.as_str()));
        }
        if text::same_ignoring_case(s, "ok") {
            return GrblLine::Okay;
        }
        if let Some(rest) = text::strip_prefix(s, "error:") {
            return GrblLine::Error(code_of(rest.as_str()));
        }
        if let Some(rest) = text::strip_prefix(s, "ALARM:") {
            return GrblLine::Alarm(code_of(rest.as_str()));
        }
        if let Some(inner) = inside(s, '[', ']') {
            return parse_bracketed(inner.as_str());
        }
        if text::starts_with(s, "Grbl") {
            return GrblLine::Banner(line);
        }
        if s.unicode_len() > 0 && s.get_char(0) == '$' {
            if let Some((key, value)) = text::split_once(s, '=') {
                return GrblLine::Setting { key, value };
            }
        }
        GrblLine::Other(line)
    }

    /// A description for the console, on one line.
    pub fn summary(&self) -> (r: Message)
        ensures
            r@ == summary_of(self@),
    {
        match self {
            GrblLine::Status(st) => {
                let head = Message::text("[status] ").then_text(st.state.label().as_str()).then_text(
                    " | WPos: ",
                );
                match st.work_pos() {
                    Some(p) => head.followed_by(p.shown()),
                    None => head.then_text("?"),
                }
            },
            GrblLine::Okay => Message::text("ok"),
            GrblLine::Error(n) => error_message(*n),
            GrblLine::Alarm(n) => alarm_message(*n),
            GrblLine::Msg(s) => Message::text("[MSG] ").then_text(s.as_str()),
            GrblLine::GcState(s) => Message::text("[GC] ").then_text(s.as_str()),
            GrblLine::Help(s) => Message::text("[HLP] ").then_text(s.as_str()),
            GrblLine::Probe { pos, success } => Message::text("[PRB] ").followed_by(
                pos.shown(),
            ).then_text(" ").then_text(if *success {
                "OK"
            } else {
                "FAIL"
            }),
            GrblLine::Banner(s) => Message::text(s.as_str()),
            GrblLine::Setting { key, value } => Message::text(key.as_str()).then_text(
                "=",
            ).then_text(value.as_str()),
            GrblLine::Other(s) => Message::text(s.as_str()),
        }
    }
}

// ── Codes ─────────────────────────────────────────────────────────────────────

/// What an error code means.
pub open spec fn error_text(code: u16) -> Seq<char> {
    match code {
        1 => "G-code letter not found"@,
        2 => "Bad number format"@,
        3 => "Invalid statement"@,
        4 => "Negative value"@,
        5 => "Homing not enabled"@,
        6 => "Step pulse too short"@,
        7 => "EEPROM read fail"@,
        8 => "Not idle"@,
        9 => "G-code lock"@,
        10 => "Homing not enabled"@,
        11 => "Line overflow"@,
        12 => "Step rate too high"@,
        13 => "Check door"@,
        14 => "Line length exceeded"@,
        15 => "Travel exceeded"@,
        16 => "Invalid jog command"@,
        17 => "Laser mode requires PWM output"@,
        20 => "Unsupported command"@,
        21 => "Modal group violation"@,
        22 => "Undefined feed rate"@,
        23 => "Invalid G-code ID:23"@,
        24 => "Invalid G-code ID:24"@,
        25 => "Invalid G-code ID:25"@,
        26 => "Invalid G-code ID:26"@,
        27 => "Invalid G-code ID:27"@,
        28 => "Invalid G-code ID:28"@,
        29 => "Invalid G-code ID:29"@,
        30 => "Invalid G-code ID:30"@,
        31 => "Invalid G-code ID:31"@,
        32 => "Invalid G-code ID:32"@,
        33 => "Invalid G-code ID:33"@,
        34 => "Invalid G-code ID:34"@,
        35 => "Invalid G-code ID:35"@,
        36 => "Invalid G-code ID:36"@,
        37 => "Invalid G-code ID:37"@,
        38 => "Invalid G-code ID:38"@,
        _ => "Unknown error"@,
    }
}

/// What an error code means.
pub fn error_description(code: u16) -> (r: &'static str)
    ensures
        r@ == error_text(code),
{
    match code {
        1 => "G-code letter not found",
        2 => "Bad number format",
        3 => "Invalid statement",
        4 => "Negative value",
        5 => "Homing not enabled",
        6 => "Step pulse too short",
        7 => "EEPROM read fail",
        8 => "Not idle",
        9 => "G-code lock",
        10 => "Homing not enabled",
        11 => "Line overflow",
        12 => "Step rate too high",
        13 => "Check door",
        14 => "Line length exceeded",
        15 => "Travel exceeded",
        16 => "Invalid jog command",
        17 => "Laser mode requires PWM output",
        20 => "Unsupported command",
        21 => "Modal group violation",
        22 => "Undefined feed rate",
        23 => "Invalid G-code ID:23",
        24 => "Invalid G-code ID:24",
        25 => "Invalid G-code ID:25",
        26 => "Invalid G-code ID:26",
        27 => "Invalid G-code ID:27",
        28 => "Invalid G-code ID:28",
        29 => "Invalid G-code ID:29",
        30 => "Invalid G-code ID:30",
        31 => "Invalid G-code ID:31",
        32 => "Invalid G-code ID:32",
        33 => "Invalid G-code ID:33",
        34 => "Invalid G-code ID:34",
        35 => "Invalid G-code ID:35",
        36 => "Invalid G-code ID:36",
        37 => "Invalid G-code ID:37",
        38 => "Invalid G-code ID:38",
        _ => "Unknown error",
    }
}

/// What an alarm code means.
pub open spec fn alarm_text(code: u16) -> Seq<char> {
    match code {
        1 => "Hard limit triggered"@,
        2 => "Soft limit alarm"@,
        3 => "Abort during cycle"@,
        4 => "Probe fail: initial state not open"@,
        5 => "Probe fail: contact not detected"@,
        6 => "Homing fail: reset during cycle"@,
        7 => "Homing fail: door opened during cycle"@,
        8 => "Homing fail: pull-off failed"@,
        9 => "Homing fail: target not found"@,
        _ => "Unknown alarm"@,
    }
}

/// What an alarm code means.
pub fn alarm_description(code: u16) -> (r: &'static str)
    ensures
        r@ == alarm_text(code),
{
    match code {
        1 => "Hard limit triggered",
        2 => "Soft limit alarm",
        3 => "Abort during cycle",
        4 => "Probe fail: initial state not open",
        5 => "Probe fail: contact not detected",
        6 => "Homing fail: reset during cycle",
        7 => "Homing fail: door opened during cycle",
        8 => "Homing fail: pull-off failed",
        9 => "Homing fail: target not found",
        _ => "Unknown alarm",
    }
}

// ── Jogging ───────────────────────────────────────────────────────────────────

/// The number of jog step sizes.
pub const JOG_STEPS: usize = 5;

/// The jog step sizes in mm, from the smallest: a hundredth, a tenth, one, ten
/// and a hundred.
pub open spec fn jog_step(idx: int) -> Real {
    if idx == 0 {
        Real { bits: 0x3f84_7ae1_47ae_147b }
    } else if idx == 1 {
        Real { bits: 0x3fb9_9999_9999_999a }
    } else if idx == 2 {
        Real { bits: 0x3ff0_0000_0000_0000 }
    } else if idx == 3 {
        Real { bits: 0x4024_0000_0000_0000 }
    } else {
        Real { bits: 0x4059_0000_0000_0000 }
    }
}

/// The jog step size at `idx`, in mm.
pub fn jog_step_at(idx: usize) -> (r: Real)
    requires
        idx < JOG_STEPS,
    ensures
        r == jog_step(idx as int),
{
    if idx == 0 {
        Real { bits: 0x3f84_7ae1_47ae_147b }
    } else if idx == 1 {
        Real { bits: 0x3fb9_9999_9999_999a }
    } else if idx == 2 {
        Real { bits: 0x3ff0_0000_0000_0000 }
    } else if idx == 3 {
        Real { bits: 0x4024_0000_0000_0000 }
    } else {
        Real { bits: 0x4059_0000_0000_0000 }
    }
}

/// A larger index is a larger step.
pub proof fn jog_steps_increase(i: int, j: int)
    requires
        0 <= i < j < JOG_STEPS,
    ensures
        jog_step(i).below(jog_step(j)),
{
}

/// The directions of a jog.
#[derive(Debug, Clone, Copy, PartialEq, Eq, Structural)]
pub enum JogDir {
    XPlus,
    XMinus,
    YPlus,
    YMinus,
    ZPlus,
    ZMinus,
}

impl JogDir {
    pub open spec fn axis(self) -> Seq<char> {
        match self {
            JogDir::XPlus | JogDir::XMinus => "X"@,
            JogDir::YPlus | JogDir::YMinus => "Y"@,
            JogDir::ZPlus | JogDir::ZMinus => "Z"@,
        }
    }

    pub open spec fn forward(self) -> bool {
        self is XPlus || self is YPlus || self is ZPlus
    }

    /// The jog command: metric and relative.
    pub open spec fn command(self, step: Real, feedrate: Real) -> Seq<Glyph> {
        message::plain("$J=G21G91"@) + message::plain(self.axis()) + message::exact(
            if self.forward() {
                step
            } else {
                step.negated()
            },
            4,
        ) + message::plain("F"@) + message::exact(feedrate, 0)
    }

    /// The command that jogs by `step_mm` in this direction, in metric units and
    /// relative to the current position.
    pub fn to_command(self, step_mm: Real, feedrate: Real) -> (r: Message)
        ensures
            r@ == self.command(step_mm, feedrate),
    {
        let (axis, dist) = match self {
            JogDir::XPlus => ("X", step_mm),
            JogDir::XMinus => ("X", step_mm.negate()),
            JogDir::YPlus => ("Y", step_mm),
            JogDir::YMinus => ("Y", step_mm.negate()),
            JogDir::ZPlus => ("Z", step_mm),
            JogDir::ZMinus => ("Z", step_mm.negate()),
        };
        Message::text("$J=G21G91").then_text(axis).then_real(dist, 4).then_text("F").then_real(
            feedrate,
            0,
        )
    }
}

// ── Laws ──────────────────────────────────────────────────────────────────────

/// A state is read back from its label, its sub-code with it; only the alarm is
/// labelled otherwise than it is reported.
pub proof fn states_are_read_as_shown(st: State)
    requires
        !(st is Unknown),
    ensures
        !(st is Alarm) ==> state_of(st.label()) == st,
        state_of("Alarm"@) is Alarm,
{
    reveal_strlit("Idle");
    reveal_strlit("Run");
    reveal_strlit("Hold");
    reveal_strlit("Jog");
    reveal_strlit("Alarm");
    reveal_strlit("Door");
    reveal_strlit("Check");
    reveal_strlit("Home");
    reveal_strlit("Sleep");
    reveal_strlit("Hold:");
    reveal_strlit("Door:");
    lemma_names_differ();
    lemma_without_colon("Idle"@);
    lemma_without_colon("Run"@);
    lemma_without_colon("Jog"@);
    lemma_without_colon("Alarm"@);
    lemma_without_colon("Check"@);
    lemma_without_colon("Home"@);
    lemma_without_colon("Sleep"@);
    match st {
        State::Hold(n) => {
            assert("Hold:"@ =~= "Hold"@ + seq![':']);
            text::a_separator_is_found("Hold"@, ':', text::decimal(n as nat));
            text::written_numbers_are_read_up_to_the_limit(n as nat, 255);
        },
        State::Door(n) => {
            assert("Door:"@ =~= "Door"@ + seq![':']);
            text::a_separator_is_found("Door"@, ':', text::decimal(n as nat));
            text::written_numbers_are_read_up_to_the_limit(n as nat, 255);
        },
        _ => {},
    }
}

proof fn lemma_without_colon(s: Seq<char>)
    requires
        !s.contains(':'),
    ensures
        text::split_first(s, ':') is None,
{
    text::a_separator_is_found(s, ':', seq![]);
}

proof fn lemma_names_differ()
    ensures
        "Idle"@ != "Run"@ && "Hold"@ != "Idle"@ && "Hold"@ != "Run"@,
        "Jog"@ != "Idle"@ && "Jog"@ != "Run"@ && "Jog"@ != "Hold"@,
        "Alarm"@ != "Idle"@ && "Alarm"@ != "Run"@ && "Alarm"@ != "Hold"@ && "Alarm"@ != "Jog"@,
        "Door"@ != "Idle"@ && "Door"@ != "Run"@ && "Door"@ != "Hold"@ && "Door"@ != "Jog"@
            && "Door"@ != "Alarm"@,
        "Check"@ != "Idle"@ && "Check"@ != "Run"@ && "Check"@ != "Hold"@ && "Check"@ != "Jog"@
            && "Check"@ != "Alarm"@ && "Check"@ != "Door"@,
        "Home"@ != "Idle"@ && "Home"@ != "Run"@ && "Home"@ != "Hold"@ && "Home"@ != "Jog"@
            && "Home"@ != "Alarm"@ && "Home"@ != "Door"@ && "Home"@ != "Check"@,
        "Sleep"@ != "Idle"@ && "Sleep"@ != "Run"@ && "Sleep"@ != "Hold"@ && "Sleep"@ != "Jog"@
            && "Sleep"@ != "Alarm"@ && "Sleep"@ != "Door"@ && "Sleep"@ != "Check"@ && "Sleep"@
            != "Home"@,
{
    reveal_strlit("Idle");
    reveal_strlit("Run");
    reveal_strlit("Hold");
    reveal_strlit("Jog");
    reveal_strlit("Alarm");
    reveal_strlit("Door");
    reveal_strlit("Check");
    reveal_strlit("Home");
    reveal_strlit("Sleep");
    assert("Idle"@[0] == 'I' && "Run"@[0] == 'R' && "Hold"@[2] == 'l' && "Jog"@[0] == 'J'
        && "Alarm"@[0] == 'A' && "Door"@[0] == 'D' && "Check"@[0] == 'C' && "Home"@[2] == 'm'
        && "Sleep"@[0] == 'S' && "Hold"@[0] == 'H' && "Home"@[0] == 'H');
}

/// A name that is none of the known ones is kept, without its sub-code.
pub proof fn unknown_states_keep_their_name(name: Seq<char>, sub: Seq<char>)
    requires
        !name.contains(':'),
        name != "Idle"@ && name != "Run"@ && name != "Hold"@ && name != "Jog"@ && name != "Alarm"@,
        name != "Door"@ && name != "Check"@ && name != "Home"@ && name != "Sleep"@,
    ensures
        state_of(name) == State::Unknown(name),
        state_of(name + seq![':'] + sub) == State::Unknown(name),
        State::Unknown(name).label() == name,
{
    text::a_separator_is_found(name, ':', sub);
}

/// Numbers between commas are the coordinates in order, as they were written;
/// without a third one that coordinate is zero.
pub proof fn coordinates_are_read_in_order(a: Seq<char>, b: Seq<char>, c: Seq<char>)
    requires
        !a.contains(','),
        !b.contains(','),
        text::is_number(text::trimmed(a)),
        text::is_number(text::trimmed(b)),
    ensures
        position_of(a + seq![','] + b) == Some(
            Position {
                x: Amount::Written(text::trimmed(a)),
                y: Amount::Written(text::trimmed(b)),
                z: Amount::Exact(Real { bits: 0 }),
            },
        ),
        text::is_number(text::trimmed(c)) ==> position_of(
            a + seq![','] + (b + seq![','] + c),
        ) == Some(
            Position {
                x: Amount::Written(text::trimmed(a)),
                y: Amount::Written(text::trimmed(b)),
                z: Amount::Written(text::trimmed(c)),
            },
        ),
        position_of(a) is None,
{
    let rest = b + seq![','] + c;
    text::a_separator_is_found(a, ',', b);
    text::a_separator_is_found(a, ',', rest);
    text::a_separator_is_found(b, ',', c);
    reveal_with_fuel(text::splitn, 4);
    let two = text::splitn(a + seq![','] + b, 3, ',');
    assert(two =~= seq![a, b]);
    let three = text::splitn(a + seq![','] + rest, 3, ',');
    assert(three =~= seq![a, b, c]);
}

/// A coordinate that is no number makes the position none.
pub proof fn what_is_no_number_is_no_coordinate(a: Seq<char>, b: Seq<char>)
    requires
        !a.contains(','),
        !b.contains(','),
        !text::is_number(text::trimmed(a)) || !text::is_number(text::trimmed(b)),
    ensures
        position_of(a + seq![','] + b) is None,
{
    text::a_separator_is_found(a, ',', b);
    text::a_separator_is_found(b, ',', seq![]);
    reveal_with_fuel(text::splitn, 4);
    assert(text::splitn(a + seq![','] + b, 3, ',') =~= seq![a, b]);
}

/// Three percentages in decimal are the overrides of feed, rapid moves and
/// spindle in this order.
pub proof fn overrides_are_read_in_order(a: u8, b: u8, c: u8)
    ensures
        overrides_of(
            text::decimal(a as nat) + seq![','] + (text::decimal(b as nat) + seq![',']
                + text::decimal(c as nat)),
        ) == Some(Overrides { feed: a, rapid: b, spindle: c }),
{
    let (x, y, z) = (text::decimal(a as nat), text::decimal(b as nat), text::decimal(c as nat));
    text::written_numbers_are_read_up_to_the_limit(a as nat, 255);
    text::written_numbers_are_read_up_to_the_limit(b as nat, 255);
    text::written_numbers_are_read_up_to_the_limit(c as nat, 255);
    let rest = y + seq![','] + z;
    text::a_separator_is_found(x, ',', rest);
    text::a_separator_is_found(y, ',', z);
    reveal_with_fuel(text::splitn, 4);
    assert(text::splitn(x + seq![','] + rest, 3, ',') =~= seq![x, y, z]);
}

/// Two numbers in decimal are the free blocks and the free bytes in this order.
pub proof fn buffers_are_read_in_order(a: u16, b: u16)
    ensures
        buffer_of(text::decimal(a as nat) + seq![','] + text::decimal(b as nat)) == Some(
            BufferState { available_blocks: a, available_bytes: b },
        ),
{
    text::written_numbers_are_read_up_to_the_limit(a as nat, 65535);
    text::written_numbers_are_read_up_to_the_limit(b as nat, 65535);
    text::a_separator_is_found(text::decimal(a as nat), ',', text::decimal(b as nat));
}

/// A pin is active where its own letter occurs, whatever else does.
pub proof fn pins_go_by_their_letters(s: Seq<char>, c: char)
    ensures
        ({
            let (p, q) = (pins_of(s), pins_of(s.push(c)));
            &&& q.x_limit == (p.x_limit || c == 'X')
            &&& q.y_limit == (p.y_limit || c == 'Y')
            &&& q.z_limit == (p.z_limit || c == 'Z')
            &&& q.probe == (p.probe || c == 'P')
            &&& q.door == (p.door || c == 'D')
            &&& q.hard_reset == (p.hard_reset || c == 'R')
            &&& q.feed_hold == (p.feed_hold || c == 'H')
            &&& q.cycle_start == (p.cycle_start || c == 'S')
        }),
        pins_of(seq![]) == (ActivePins {
            x_limit: false,
            y_limit: false,
            z_limit: false,
            probe: false,
            door: false,
            hard_reset: false,
            feed_hold: false,
            cycle_start: false,
        }),
{
    let t = s.push(c);
    assert(t.last() == c);
    assert(t[t.len() - 1] == c);
    assert forall|x: char| #[trigger] t.contains(x) <==> s.contains(x) || c == x by {
        if s.contains(x) {
            let i = choose|i: int| 0 <= i < s.len() && s[i] == x;
            assert(t[i] == x);
        }
        if t.contains(x) && c != x {
            let i = choose|i: int| 0 <= i < t.len() && t[i] == x;
            assert(s[i] == x);
        }
    }
}

/// The reported work position is taken as it is; without one the machine position
/// counts, less the offset if there is one, axis by axis.
pub proof fn the_work_position_is_the_nearest_known(st: Status)
    ensures
        st.wpos is Some ==> st.work_pos() == st.wpos,
        st.wpos is None && st.mpos is None ==> st.work_pos() is None,
        st.wpos is None && st.wco is None ==> st.work_pos() == st.mpos,
        st.wpos is None && st.mpos is Some && st.wco is Some ==> {
            let (m, o) = (st.mpos->0, st.wco->0);
            &&& st.work_pos() is Some
            &&& st.work_pos()->0.x == Amount::Minus(Box::new(m.x), Box::new(o.x))
            &&& st.work_pos()->0.y == Amount::Minus(Box::new(m.y), Box::new(o.y))
            &&& st.work_pos()->0.z == Amount::Minus(Box::new(m.z), Box::new(o.z))
        },
{
}

/// Each field of a report sets what its name says, to what stands behind the
/// colon, and nothing else.
pub proof fn fields_set_what_they_name(st: Status, v: Seq<char>)
    ensures
        with_field(st, "MPos:"@ + v) == (Status { mpos: position_of(v), ..st }),
        with_field(st, "WPos:"@ + v) == (Status { wpos: position_of(v), ..st }),
        with_field(st, "WCO:"@ + v) == (Status { wco: position_of(v), ..st }),
        with_field(st, "F:"@ + v) == (Status { feed: number_of(v), ..st }),
        with_field(st, "Pn:"@ + v) == (Status { pins: Some(pins_of(v)), ..st }),
        with_field(st, "Ov:"@ + v) == (Status { overrides: overrides_of(v), ..st }),
        with_field(st, "Bf:"@ + v) == (Status { buffer: buffer_of(v), ..st }),
{
    lemma_field_names();
    lemma_field(st, "MPos:"@, v);
    lemma_field(st, "WPos:"@, v);
    lemma_field(st, "WCO:"@, v);
    lemma_field(st, "F:"@, v);
    lemma_field(st, "Pn:"@, v);
    lemma_field(st, "Ov:"@, v);
    lemma_field(st, "Bf:"@, v);
}

proof fn lemma_field_names()
    ensures
        "MPos:"@ == seq!['M', 'P', 'o', 's', ':'],
        "WPos:"@ == seq!['W', 'P', 'o', 's', ':'],
        "WCO:"@ == seq!['W', 'C', 'O', ':'],
        "FS:"@ == seq!['F', 'S', ':'],
        "F:"@ == seq!['F', ':'],
        "Pn:"@ == seq!['P', 'n', ':'],
        "Ov:"@ == seq!['O', 'v', ':'],
        "Bf:"@ == seq!['B', 'f', ':'],
        "Ln:"@ == seq!['L', 'n', ':'],
{
    reveal_strlit("MPos:");
    reveal_strlit("WPos:");
    reveal_strlit("WCO:");
    reveal_strlit("FS:");
    reveal_strlit("F:");
    reveal_strlit("Pn:");
    reveal_strlit("Ov:");
    reveal_strlit("Bf:");
    reveal_strlit("Ln:");
}

/// A text that begins with the name of a field begins with no other.
proof fn lemma_field(st: Status, name: Seq<char>, v: Seq<char>)
    requires
        name == "MPos:"@ || name == "WPos:"@ || name == "WCO:"@ || name == "FS:"@ || name == "F:"@
            || name == "Pn:"@ || name == "Ov:"@ || name == "Bf:"@ || name == "Ln:"@,
    ensures
        text::after(name + v, name) == Some(v),
        name != "MPos:"@ ==> text::after(name + v, "MPos:"@) is None,
        name != "WPos:"@ ==> text::after(name + v, "WPos:"@) is None,
        name != "WCO:"@ ==> text::after(name + v, "WCO:"@) is None,
        name != "FS:"@ ==> text::after(name + v, "FS:"@) is None,
        name != "F:"@ ==> text::after(name + v, "F:"@) is None,
        name != "Pn:"@ ==> text::after(name + v, "Pn:"@) is None,
        name != "Ov:"@ ==> text::after(name + v, "Ov:"@) is None,
        name != "Bf:"@ ==> text::after(name + v, "Bf:"@) is None,
        name != "Ln:"@ ==> text::after(name + v, "Ln:"@) is None,
{
    lemma_field_names();
    text::a_prefix_is_what_comes_first(name, v, seq![]);
    let s = name + v;
    assert(s[0] == name[0] && s[1] == name[1]);
    lemma_other(s, name, "MPos:"@);
    lemma_other(s, name, "WPos:"@);
    lemma_other(s, name, "WCO:"@);
    lemma_other(s, name, "FS:"@);
    lemma_other(s, name, "F:"@);
    lemma_other(s, name, "Pn:"@);
    lemma_other(s, name, "Ov:"@);
    lemma_other(s, name, "Bf:"@);
    lemma_other(s, name, "Ln:"@);
}

proof fn lemma_other(s: Seq<char>, name: Seq<char>, p: Seq<char>)
    requires
        name.len() >= 2,
        p.len() >= 2,
        s.len() >= 2,
        s[0] == name[0] && s[1] == name[1],
    ensures
        (p[0] != name[0] || p[1] != name[1]) ==> text::after(s, p) is None,
{
    if p[0] != name[0] {
        text::what_differs_is_no_prefix(s, p, 0);
    } else if p[1] != name[1] {
        text::what_differs_is_no_prefix(s, p, 1);
    }
}

/// The field of feed and speed sets both; without a comma it sets the feed and
/// leaves the speed unknown.  The field of the line number sets that.
pub proof fn feed_and_speed_are_read_in_order(st: Status, a: Seq<char>, b: Seq<char>, n: u32)
    requires
        !a.contains(','),
    ensures
        with_field(st, "FS:"@ + (a + seq![','] + b)) == (Status {
            feed: number_of(a),
            speed: number_of(b),
            ..st
        }),
        with_field(st, "FS:"@ + a) == (Status { feed: number_of(a), speed: None, ..st }),
        with_field(st, "Ln:"@ + text::decimal(n as nat)) == (Status {
            line_number: Some(n),
            ..st
        }),
{
    lemma_field_names();
    lemma_field(st, "FS:"@, a + seq![','] + b);
    lemma_field(st, "FS:"@, a);
    lemma_field(st, "Ln:"@, text::decimal(n as nat));
    text::a_separator_is_found(a, ',', b);
    text::written_numbers_are_read_up_to_the_limit(n as nat, 0xffff_ffff);
}

/// A number is kept as it was written, without white space around it, and what is
/// no number is left out.
pub proof fn numbers_are_kept_as_written(s: Seq<char>)
    ensures
        text::is_number(text::trimmed(s)) ==> number_of(s) == Some(
            Amount::Written(text::trimmed(s)),
        ),
        !text::is_number(text::trimmed(s)) ==> number_of(s) is None,
{
}

/// A report begins with its state, and each field behind a bar is taken into
/// account in turn.
pub proof fn reports_are_read_field_by_field(state: Seq<char>, field: Seq<char>, fields: Seq<Seq<char>>, st: Status)
    requires
        !state.contains('|'),
        !field.contains('|'),
    ensures
        status_of(state).state == state_of(state),
        status_of(state).mpos is None && status_of(state).wpos is None && status_of(
            state,
        ).wco is None && status_of(state).feed is None && status_of(state).speed is None,
        status_of(state).pins is None && status_of(state).overrides is None && status_of(
            state,
        ).buffer is None && status_of(state).line_number is None,
        status_of(state + seq!['|'] + field) == with_field(status_of(state), field),
        with_fields(st, fields.push(field)) == with_field(with_fields(st, fields), field),
        with_fields(st, seq![]) == st,
{
    text::a_separator_is_found(state, '|', field);
    text::a_separator_is_found(field, '|', seq![]);
    let one = text::split(state, '|');
    assert(one.skip(1) =~= seq![]);
    let two = text::split(state + seq!['|'] + field, '|');
    assert(two =~= seq![state, field]);
    assert(two.skip(1) =~= seq![field]);
    assert(seq![field].drop_last() =~= seq![]);
    reveal_with_fuel(with_fields, 2);
    assert(fields.push(field).drop_last() =~= fields);
}

/// What stands between the brackets of a line is what it says, and white space
/// round a line does not matter.
pub proof fn lines_are_told_by_their_marks(inner: Seq<char>, raw: Seq<char>)
    ensures
        said(seq!['<'] + inner + seq!['>']) == Said::Status(status_of(inner)),
        said(seq!['['] + inner + seq![']']) == bracketed(inner),
        said(raw) == said(text::trimmed(raw)),
        between(seq!['<'] + inner + seq!['>'], '<', '>') == Some(inner),
{
    text::trimmed_texts_stay(raw);
    let s = seq!['<'] + inner + seq!['>'];
    text::trimmed_texts_stay(s);
    assert(s.subrange(1, s.len() - 1) =~= inner);
    let t = seq!['['] + inner + seq![']'];
    text::trimmed_texts_stay(t);
    assert(t.subrange(1, t.len() - 1) =~= inner);
    reveal_strlit("ok");
    reveal_strlit("error:");
    reveal_strlit("ALARM:");
    assert(text::lower(t)[0] == '[');
    assert(text::lower("ok"@)[0] == 'o');
    text::what_differs_is_no_prefix(t, "error:"@, 0);
    text::what_differs_is_no_prefix(t, "ALARM:"@, 0);
}

/// Errors and alarms carry their own code, and an acknowledgement is one in
/// either case.
pub proof fn codes_are_read_as_they_are(n: u16)
    ensures
        said("error:"@ + text::decimal(n as nat)) == Said::Error(n),
        said("ALARM:"@ + text::decimal(n as nat)) == Said::Alarm(n),
        said("ok"@) is Okay,
        said("OK"@) is Okay,
{
    let d = text::decimal(n as nat);
    text::written_numbers_are_read_up_to_the_limit(n as nat, 65535);
    reveal_strlit("ok");
    reveal_strlit("OK");
    reveal_strlit("error:");
    reveal_strlit("ALARM:");
    let (e, a) = ("error:"@ + d, "ALARM:"@ + d);
    assert(text::is_digit(d[d.len() - 1]));
    text::trimmed_texts_stay(e);
    text::trimmed_texts_stay(a);
    text::trimmed_texts_stay("ok"@);
    text::trimmed_texts_stay("OK"@);
    text::a_prefix_is_what_comes_first("error:"@, d, seq![]);
    text::a_prefix_is_what_comes_first("ALARM:"@, d, seq![]);
    assert(text::lower(e)[0] == 'e' && text::lower(a)[0] == 'a');
    assert(text::lower("ok"@)[0] == 'o');
    assert(text::lower("OK"@) =~= text::lower("ok"@));
    text::what_differs_is_no_prefix(a, "error:"@, 0);
}

/// A message, the state of the parser and help are told by the word before the
/// colon, and keep what stands behind it.
pub proof fn bracketed_lines_keep_their_text(v: Seq<char>)
    ensures
        bracketed("MSG:"@ + v) == Said::Msg(v),
        bracketed("GC:"@ + v) == Said::GcState(v),
        bracketed("HLP:"@ + v) == Said::Help(v),
{
    reveal_strlit("MSG:");
    reveal_strlit("GC:");
    reveal_strlit("HLP:");
    text::a_prefix_is_what_comes_first("MSG:"@, v, seq![]);
    text::a_prefix_is_what_comes_first("GC:"@, v, seq![]);
    text::a_prefix_is_what_comes_first("HLP:"@, v, seq![]);
    text::what_differs_is_no_prefix("GC:"@ + v, "MSG:"@, 0);
    text::what_differs_is_no_prefix("HLP:"@ + v, "MSG:"@, 0);
    text::what_differs_is_no_prefix("HLP:"@ + v, "GC:"@, 0);
}

/// A probing result has its coordinates before the last colon and succeeded if a
/// one stands behind it.
pub proof fn probing_succeeds_with_a_one(coords: Seq<char>, result: Seq<char>)
    requires
        !result.contains(':'),
        position_of(coords) is Some,
    ensures
        bracketed("PRB:"@ + (coords + seq![':'] + result)) == (Said::Probe {
            pos: position_of(coords)->0,
            success: text::trimmed(result) == "1"@,
        }),
{
    let rest = coords + seq![':'] + result;
    let s = "PRB:"@ + rest;
    reveal_strlit("MSG:");
    reveal_strlit("GC:");
    reveal_strlit("HLP:");
    reveal_strlit("PRB:");
    text::a_prefix_is_what_comes_first("PRB:"@, rest, seq![]);
    text::what_differs_is_no_prefix(s, "MSG:"@, 0);
    text::what_differs_is_no_prefix(s, "GC:"@, 0);
    text::what_differs_is_no_prefix(s, "HLP:"@, 0);
    text::a_text_is_cut_at_its_separator(rest, ':');
    assert(rest[coords.len() as int] == ':');
    assert(rest.contains(':'));
    let (a, b) = text::split_last(rest, ':')->0;
    assert(rest == a + seq![':'] + b);
    if a.len() < coords.len() {
        assert(b[coords.len() - a.len() - 1] == ':');
        assert(b.contains(':'));
    } else if a.len() > coords.len() {
        assert(result[a.len() - coords.len() - 1] == ':') by {
            assert(rest[a.len() as int] == ':');
        }
        assert(result.contains(':'));
    }
    assert(a =~= coords) by {
        assert forall|i: int| 0 <= i < a.len() implies a[i] == coords[i] by {
            assert(rest[i] == a[i]);
        }
    }
    assert(b =~= result) by {
        assert forall|i: int| 0 <= i < b.len() implies b[i] == result[i] by {
            assert(rest[a.len() as int + 1 + i] == b[i]);
        }
    }
}

/// A setting is a dollar sign and what stands before and behind the first equals
/// sign.
pub proof fn settings_are_read_at_the_equals_sign(key: Seq<char>, value: Seq<char>)
    requires
        key.len() > 0,
        key[0] == '$',
        !key.contains('='),
    ensures
        setting_of(key + seq!['='] + value) == Some(Said::Setting { key, value }),
{
    text::a_separator_is_found(key, '=', value);
    assert((key + seq!['='] + value)[0] == '$');
}

/// The summary of a line holds its text; where the line is one as it stands, it is
/// that very text.
pub proof fn summaries_hold_the_text(s: Seq<char>, key: Seq<char>, value: Seq<char>)
    ensures
        summary_of(Said::Banner(s)) == message::plain(s),
        summary_of(Said::Other(s)) == message::plain(s),
        summary_of(Said::Setting { key, value }) == message::plain(key + seq!['='] + value),
        summary_of(Said::Msg(s)) == message::plain("[MSG] "@ + s),
        summary_of(Said::GcState(s)) == message::plain("[GC] "@ + s),
        summary_of(Said::Help(s)) == message::plain("[HLP] "@ + s),
        summary_of(Said::Okay) == message::plain("ok"@),
{
    reveal_strlit("=");
    assert("="@ =~= seq!['=']);
    message::texts_are_shown_in_order(key, "="@, 0);
    message::texts_are_shown_in_order(key + "="@, value, 0);
    message::texts_are_shown_in_order("[MSG] "@, s, 0);
    message::texts_are_shown_in_order("[GC] "@, s, 0);
    message::texts_are_shown_in_order("[HLP] "@, s, 0);
}

/// The summary of an error or an alarm shows its code and ends with what it means.
pub proof fn codes_are_told_with_their_meaning(n: u16)
    ensures
        summary_of(Said::Error(n)) == message::plain(
            "error:"@ + text::decimal(n as nat) + " – "@ + error_text(n),
        ),
        summary_of(Said::Alarm(n)) == message::plain(
            "ALARM:"@ + text::decimal(n as nat) + " – "@ + alarm_text(n),
        ),
        n == 0 || n == 18 || n == 19 || n > 38 ==> error_text(n) == "Unknown error"@,
        n == 0 || n > 9 ==> alarm_text(n) == "Unknown alarm"@,
{
    let d = text::decimal(n as nat);
    message::texts_are_shown_in_order("error:"@, d, 0);
    message::texts_are_shown_in_order("error:"@ + d, " – "@, 0);
    message::texts_are_shown_in_order("error:"@ + d + " – "@, error_text(n), 0);
    message::texts_are_shown_in_order("ALARM:"@, d, 0);
    message::texts_are_shown_in_order("ALARM:"@ + d, " – "@, 0);
    message::texts_are_shown_in_order("ALARM:"@ + d + " – "@, alarm_text(n), 0);
}

/// The three coordinates are shown with three decimals in eight columns each, in
/// order.
pub proof fn positions_are_shown_in_order(p: Position)
    ensures
        p.shown().len() == 10,
        p.shown()[1] == (Glyph::Number { amount: p.x, places: 3, width: 8 }),
        p.shown()[5] == (Glyph::Number { amount: p.y, places: 3, width: 8 }),
        p.shown()[9] == (Glyph::Number { amount: p.z, places: 3, width: 8 }),
        p.shown()[0] == Glyph::Code('X' as int),
        p.shown()[4] == Glyph::Code('Y' as int),
        p.shown()[8] == Glyph::Code('Z' as int),
{
    reveal_strlit("X");
    reveal_strlit("  Y");
    reveal_strlit("  Z");
}

/// The significand of a number and its exponent, both as integers.
pub open spec fn significand(r: Real) -> int {
    r.bits as int % 0x10_0000_0000_0000 + 0x10_0000_0000_0000
}

/// The steps are a hundredth, a tenth, one, ten and a hundred, each as near as a
/// number can come.
pub proof fn jog_steps_are_powers_of_ten()
    ensures
        jog_step(0).bits / 0x10_0000_0000_0000 == 1023 - 7 && -50 <= 100 * significand(jog_step(0))
            - 0x800_0000_0000_0000 <= 50,
        jog_step(1).bits / 0x10_0000_0000_0000 == 1023 - 4 && -5 <= 10 * significand(jog_step(1))
            - 0x100_0000_0000_0000 <= 5,
        jog_step(2).bits / 0x10_0000_0000_0000 == 1023 && significand(jog_step(2))
            == 0x10_0000_0000_0000,
        jog_step(3).bits / 0x10_0000_0000_0000 == 1023 + 3 && significand(jog_step(3)) * 8 == 10
            * 0x10_0000_0000_0000,
        jog_step(4).bits / 0x10_0000_0000_0000 == 1023 + 6 && significand(jog_step(4)) * 64 == 100
            * 0x10_0000_0000_0000,
        JOG_STEPS == 5,
{
}

/// A jog is a metric relative move along the axis of its direction, forward by the
/// step or back by it, at the feed rate; the opposite direction is the negated
/// step.
pub proof fn a_jog_moves_its_axis_by_the_step(step: Real, feedrate: Real)
    ensures
        JogDir::XPlus.command(step, feedrate) == jog_along('X', step, feedrate),
        JogDir::XMinus.command(step, feedrate) == jog_along('X', step.negated(), feedrate),
        JogDir::YPlus.command(step, feedrate) == jog_along('Y', step, feedrate),
        JogDir::YMinus.command(step, feedrate) == jog_along('Y', step.negated(), feedrate),
        JogDir::ZPlus.command(step, feedrate) == jog_along('Z', step, feedrate),
        JogDir::ZMinus.command(step, feedrate) == jog_along('Z', step.negated(), feedrate),
{
    reveal_strlit("X");
    reveal_strlit("Y");
    reveal_strlit("Z");
    reveal_strlit("F");
    assert(JogDir::XPlus.command(step, feedrate) =~= jog_along('X', step, feedrate));
    assert(JogDir::XMinus.command(step, feedrate) =~= jog_along('X', step.negated(), feedrate));
    assert(JogDir::YPlus.command(step, feedrate) =~= jog_along('Y', step, feedrate));
    assert(JogDir::YMinus.command(step, feedrate) =~= jog_along('Y', step.negated(), feedrate));
    assert(JogDir::ZPlus.command(step, feedrate) =~= jog_along('Z', step, feedrate));
    assert(JogDir::ZMinus.command(step, feedrate) =~= jog_along('Z', step.negated(), feedrate));
}

/// A metric relative jog along an axis by a distance.
pub open spec fn jog_along(axis: char, distance: Real, feedrate: Real) -> Seq<Glyph> {
    message::plain("$J=G21G91"@) + seq![
        Glyph::Code(axis as int),
        Glyph::Number { amount: Amount::Exact(distance), places: 4, width: 0 },
        Glyph::Code('F' as int),
        Glyph::Number { amount: Amount::Exact(feedrate), places: 0, width: 0 },
    ]
}

/// Numbers that no buffer can have are refused.
pub proof fn buffers_have_their_limits(m: nat, n: nat)
    requires
        m > 65535 || n > 65535,
    ensures
        buffer_of(text::decimal(m) + seq![','] + text::decimal(n)) is None,
{
    text::written_numbers_are_read_up_to_the_limit(m, 65535);
    text::written_numbers_are_read_up_to_the_limit(n, 65535);
    text::a_separator_is_found(text::decimal(m), ',', text::decimal(n));
}

/// A code in decimal is read as it is; one that is too large, and what is no
/// number, counts as zero.
pub proof fn unreadable_codes_count_as_zero(n: nat, s: Seq<char>)
    ensures
        n <= 255 ==> u8_or_zero(text::decimal(n)) == n,
        n > 255 ==> u8_or_zero(text::decimal(n)) == 0,
        n <= 65535 ==> u16_or_zero(text::decimal(n)) == n,
        n > 65535 ==> u16_or_zero(text::decimal(n)) == 0,
        text::natural(s) is None ==> u8_or_zero(s) == 0 && u16_or_zero(s) == 0,
{
    text::written_numbers_are_read_up_to_the_limit(n, 255);
    text::written_numbers_are_read_up_to_the_limit(n, 65535);
    text::numbers_are_read_up_to_the_limit(s, 255, 0);
    text::numbers_are_read_up_to_the_limit(s, 65535, 0);
}

/// A quantity is seen with its own amount, and a position as it is.
pub proof fn quantities_are_seen_as_they_are(q: Quantity, p: Pos3)
    ensures
        amount_of(Some(q)) == Some(q.amount()),
        amount_of(None) is None,
        place_of(Some(p)) == Some(p@),
        place_of(None) is None,
{
}

/// Alarms that are known have different meanings, none of them that of an unknown
/// one.
pub proof fn alarms_are_told_apart(m: u16, n: u16)
    requires
        1 <= m <= 9,
        m != n,
    ensures
        alarm_text(m) != alarm_text(n),
{
    reveal_strlit("Hard limit triggered");
    reveal_strlit("Soft limit alarm");
    reveal_strlit("Abort during cycle");
    reveal_strlit("Probe fail: initial state not open");
    reveal_strlit("Probe fail: contact not detected");
    reveal_strlit("Homing fail: reset during cycle");
    reveal_strlit("Homing fail: door opened during cycle");
    reveal_strlit("Homing fail: pull-off failed");
    reveal_strlit("Homing fail: target not found");
    reveal_strlit("Unknown alarm");
    assert(alarm_text(1).len() == 20);
    assert(alarm_text(2).len() == 16);
    assert(alarm_text(3).len() == 18);
    assert(alarm_text(4).len() == 34);
    assert(alarm_text(5).len() == 32);
    assert(alarm_text(6).len() == 31);
    assert(alarm_text(7).len() == 37);
    assert(alarm_text(8).len() == 28);
    assert(alarm_text(9).len() == 29);
    assert(n == 0 || n > 9 ==> alarm_text(n).len() == 13);
}

/// A probe is told with the position that was found, and at its end whether it
/// succeeded; a report ends with the position of the work, if it is known.
pub proof fn probes_are_told_with_their_outcome(pos: Position, st: Status)
    ensures
        ({
            let well = summary_of(Said::Probe { pos, success: true });
            let badly = summary_of(Said::Probe { pos, success: false });
            &&& well.len() == 19 && badly.len() == 21
            &&& well.subrange(6, 16) == pos.shown() && badly.subrange(6, 16) == pos.shown()
            &&& well.skip(17) == message::plain("OK"@)
            &&& badly.skip(17) == message::plain("FAIL"@)
        }),
        ({
            let t = summary_of(Said::Status(st));
            let label = message::plain(st.state.label());
            &&& t.len() >= 9 + label.len() && t.subrange(9, 9 + label.len() as int) == label
            &&& st.work_pos() matches Some(p) ==> t.len() >= 10 && t.skip(t.len() - 10)
                == p.shown()
            &&& st.work_pos() is None ==> t.last() == Glyph::Code('?' as int)
        }),
{
    positions_are_shown_in_order(pos);
    reveal_strlit("[PRB] ");
    reveal_strlit(" ");
    reveal_strlit("OK");
    reveal_strlit("FAIL");
    reveal_strlit("[status] ");
    reveal_strlit("?");
    let well = summary_of(Said::Probe { pos, success: true });
    let badly = summary_of(Said::Probe { pos, success: false });
    assert(message::plain("[PRB] "@).len() == 6);
    assert(message::plain(" "@).len() == 1);
    assert(message::plain("OK"@).len() == 2);
    assert(message::plain("FAIL"@).len() == 4);
    assert(well.subrange(6, 16) =~= pos.shown());
    assert(badly.subrange(6, 16) =~= pos.shown());
    assert(well.skip(17) =~= message::plain("OK"@));
    assert(badly.skip(17) =~= message::plain("FAIL"@));
    let t = summary_of(Said::Status(st));
    let label = message::plain(st.state.label());
    assert(message::plain("[status] "@).len() == 9);
    assert(t.subrange(9, 9 + label.len() as int) =~= label);
    if let Some(p) = st.work_pos() {
        positions_are_shown_in_order(p);
        assert(t.skip(t.len() - 10) =~= p.shown());
    } else {
        assert(message::plain("?"@).last() == Glyph::Code('?' as int));
        assert(t.last() == message::plain("?"@).last());
    }
}

/// Percentages beyond their range are refused, whichever of the three it is.
pub proof fn overrides_have_their_limits(a: nat, b: nat, c: nat)
    requires
        a > 255 || b > 255 || c > 255,
    ensures
        overrides_of(
            text::decimal(a) + seq![','] + (text::decimal(b) + seq![','] + text::decimal(c)),
        ) is None,
{
    let (x, y, z) = (text::decimal(a), text::decimal(b), text::decimal(c));
    text::written_numbers_are_read_up_to_the_limit(a, 255);
    text::written_numbers_are_read_up_to_the_limit(b, 255);
    text::written_numbers_are_read_up_to_the_limit(c, 255);
    let rest = y + seq![','] + z;
    text::a_separator_is_found(x, ',', rest);
    text::a_separator_is_found(y, ',', z);
    reveal_with_fuel(text::splitn, 4);
    assert(text::splitn(x + seq![','] + rest, 3, ',') =~= seq![x, y, z]);
}

} // verus!
