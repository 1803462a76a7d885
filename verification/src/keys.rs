//! What a key means in the state that the program is in.
use vstd::prelude::*;

use crate::app::{ActiveTab, App, AppMode, Axis, ControlFocus, FocusedPane, GCodeFocus};
use crate::grbl::JogDir;
use crate::settings;

verus! {

/// A key.
#[derive(Debug, Clone, Copy, PartialEq, Eq, Structural)]
pub enum KeyCode {
    Char(char),
    Enter,
    Esc,
    Tab,
    BackTab,
    Up,
    Down,
    Left,
    Right,
    Home,
    End,
    PageUp,
    PageDown,
    Backspace,
    Delete,
    F(u8),
    /// Any other.
    Other,
}

/// What is held down with a key.
#[derive(Debug, Clone, Copy, PartialEq, Eq, Structural)]
pub enum Modifiers {
    Plain,
    Shift,
    Control,
    /// Anything else, also several together.
    Other,
}

/// A key that was pressed.
#[derive(Debug, Clone, Copy, PartialEq, Eq, Structural)]
pub struct Key {
    pub code: KeyCode,
    pub modifiers: Modifiers,
}

/// What can be done in the list of baud rates.
#[derive(Debug, Clone, Copy, PartialEq, Eq, Structural)]
pub enum BaudAction {
    Previous,
    Next,
    Close,
}

/// What can be done in the list of ports.
#[derive(Debug, Clone, Copy, PartialEq, Eq, Structural)]
pub enum PortAction {
    Previous,
    Next,
    First,
    Last,
    Refresh,
    ChooseBaud,
    Disconnect,
    Connect,
}

/// What can be done on the console.
#[derive(Debug, Clone, Copy, PartialEq, Eq, Structural)]
pub enum ConsoleAction {
    Up,
    Down,
    PageUp,
    PageDown,
    Bottom,
    Top,
}

/// What can be done on the command line.
#[derive(Debug, Clone, Copy, PartialEq, Eq, Structural)]
pub enum InputAction {
    Submit,
    Earlier,
    Later,
    Left,
    Right,
    WordLeft,
    WordRight,
    Home,
    End,
    DeleteBack,
    DeleteForward,
    Clear,
    KillToEnd,
    Insert(char),
    Escape,
}

/// What can be done with the machine.
#[derive(Debug, Clone, Copy, PartialEq, Eq, Structural)]
pub enum ControlAction {
    Jog(JogDir),
    LargerStep,
    SmallerStep,
    /// A real-time byte: resume, hold, reset or the end of a jog.
    Byte(u8),
    Unlock,
    Home,
    ListSettings,
    ParserState,
    TogglePolling,
}

/// What can be done with the overrides.
#[derive(Debug, Clone, Copy, PartialEq, Eq, Structural)]
pub enum OverrideAction {
    ResetFeed,
    ResetRapid,
    ResetPower,
    ResetAll,
    /// A real-time byte.
    Byte(u8),
}

/// What can be done in the list of the controller's settings.
#[derive(Debug, Clone, Copy, PartialEq, Eq, Structural)]
pub enum ListAction {
    Previous,
    Next,
    Request,
}

/// What can be done on the G-code tab.
#[derive(Debug, Clone, Copy, PartialEq, Eq, Structural)]
pub enum JobAction {
    Open,
    Convert,
    Save,
    Send,
    Abort,
    Frame,
    FocusLayers,
    Invert,
    /// Edit the shift of the job along an axis.
    EditOffset(Axis),
    Up,
    Down,
    PageUp,
    PageDown,
    Top,
    Bottom,
}

/// What can be done in the list of layers.
#[derive(Debug, Clone, Copy, PartialEq, Eq, Structural)]
pub enum LayerAction {
    Previous,
    Next,
    /// Edit an override, by its number.
    Edit(usize),
    /// Draw the selected layer in another mode.
    CycleMode,
    Reset,
    Leave,
    Commit,
    Cancel,
    Backspace,
    Type(char),
}

/// What can be done while the shift of the job is edited.
#[derive(Debug, Clone, Copy, PartialEq, Eq, Structural)]
pub enum OffsetAction {
    Commit,
    Cancel,
    Backspace,
    Type(char),
}

/// What can be done on the settings tab.
#[derive(Debug, Clone, Copy, PartialEq, Eq, Structural)]
pub enum SettingsAction {
    Previous,
    Next,
    First,
    Last,
    Begin,
    Toggle,
    Reset,
    Commit,
    Cancel,
    Backspace,
    Type(char),
}

/// What a key asks for.
#[derive(Debug, Clone, Copy, PartialEq, Eq, Structural)]
pub enum Action {
    /// Nothing.
    Ignore,
    OpenHelp,
    CloseHelp,
    DismissError,
    Quit,
    Show(ActiveTab),
    NextPane,
    PreviousPane,
    NextControl,
    PreviousControl,
    Baud(BaudAction),
    Port(PortAction),
    Console(ConsoleAction),
    Input(InputAction),
    Control(ControlAction),
    Override(OverrideAction),
    List(ListAction),
    Job(JobAction),
    Offset(OffsetAction),
    Layer(LayerAction),
    Render,
    ToggleTravel,
    Settings(SettingsAction),
}

/// Whether a key is one of two letters, or their capitals.
pub open spec fn letter(code: KeyCode, small: char, capital: char) -> bool {
    code == KeyCode::Char(small) || code == KeyCode::Char(capital)
}

fn is_letter(code: KeyCode, small: char, capital: char) -> (r: bool)
    ensures
        r == letter(code, small, capital),
{
    code == KeyCode::Char(small) || code == KeyCode::Char(capital)
}

/// The way up in a list.
pub open spec fn upward(code: KeyCode) -> bool {
    code is Up || code == KeyCode::Char('k')
}

fn is_upward(code: KeyCode) -> (r: bool)
    ensures
        r == upward(code),
{
    code == KeyCode::Up || code == KeyCode::Char('k')
}

/// The way down in a list.
pub open spec fn downward(code: KeyCode) -> bool {
    code is Down || code == KeyCode::Char('j')
}

fn is_downward(code: KeyCode) -> (r: bool)
    ensures
        r == downward(code),
{
    code == KeyCode::Down || code == KeyCode::Char('j')
}

/// The character that a key types, if it types one.
pub open spec fn typed(key: Key) -> Option<char> {
    match key.code {
        KeyCode::Char(c) => if key.modifiers is Plain || key.modifiers is Shift {
            Some(c)
        } else {
            None
        },
        _ => None,
    }
}

fn typed_char(key: Key) -> (r: Option<char>)
    ensures
        r == typed(key),
{
    match key.code {
        KeyCode::Char(c) => if key.modifiers == Modifiers::Plain || key.modifiers
            == Modifiers::Shift {
            Some(c)
        } else {
            None
        },
        _ => None,
    }
}

/// Keys in the list of baud rates.
pub open spec fn baud_key(code: KeyCode) -> Action {
    if upward(code) {
        Action::Baud(BaudAction::Previous)
    } else if downward(code) {
        Action::Baud(BaudAction::Next)
    } else if code is Enter || code is Esc {
        Action::Baud(BaudAction::Close)
    } else {
        Action::Ignore
    }
}

fn read_baud_key(code: KeyCode) -> (r: Action)
    ensures
        r == baud_key(code),
{
    if is_upward(code) {
        Action::Baud(BaudAction::Previous)
    } else if is_downward(code) {
        Action::Baud(BaudAction::Next)
    } else if code == KeyCode::Enter || code == KeyCode::Esc {
        Action::Baud(BaudAction::Close)
    } else {
        Action::Ignore
    }
}

/// Keys in the list of ports.
pub open spec fn port_key(code: KeyCode, connected: bool) -> Action {
    if upward(code) {
        Action::Port(PortAction::Previous)
    } else if downward(code) {
        Action::Port(PortAction::Next)
    } else if code is Home {
        Action::Port(PortAction::First)
    } else if code is End {
        Action::Port(PortAction::Last)
    } else if letter(code, 'r', 'R') {
        Action::Port(PortAction::Refresh)
    } else if letter(code, 'b', 'B') {
        Action::Port(PortAction::ChooseBaud)
    } else if letter(code, 'd', 'D') && connected {
        Action::Port(PortAction::Disconnect)
    } else if code is Enter && !connected {
        Action::Port(PortAction::Connect)
    } else {
        Action::Ignore
    }
}

fn read_port_key(code: KeyCode, connected: bool) -> (r: Action)
    ensures
        r == port_key(code, connected),
{
    if is_upward(code) {
        Action::Port(PortAction::Previous)
    } else if is_downward(code) {
        Action::Port(PortAction::Next)
    } else if code == KeyCode::Home {
        Action::Port(PortAction::First)
    } else if code == KeyCode::End {
        Action::Port(PortAction::Last)
    } else if is_letter(code, 'r', 'R') {
        Action::Port(PortAction::Refresh)
    } else if is_letter(code, 'b', 'B') {
        Action::Port(PortAction::ChooseBaud)
    } else if is_letter(code, 'd', 'D') && connected {
        Action::Port(PortAction::Disconnect)
    } else if code == KeyCode::Enter && !connected {
        Action::Port(PortAction::Connect)
    } else {
        Action::Ignore
    }
}

/// Keys on the console.
pub open spec fn console_key(code: KeyCode) -> Action {
    if upward(code) {
        Action::Console(ConsoleAction::Up)
    } else if downward(code) {
        Action::Console(ConsoleAction::Down)
    } else {
        match code {
            KeyCode::PageUp => Action::Console(ConsoleAction::PageUp),
            KeyCode::PageDown => Action::Console(ConsoleAction::PageDown),
            KeyCode::End => Action::Console(ConsoleAction::Bottom),
            KeyCode::Home => Action::Console(ConsoleAction::Top),
            _ => Action::Ignore,
        }
    }
}

fn read_console_key(code: KeyCode) -> (r: Action)
    ensures
        r == console_key(code),
{
    if is_upward(code) {
        return Action::Console(ConsoleAction::Up);
    }
    if is_downward(code) {
        return Action::Console(ConsoleAction::Down);
    }
    match code {
        KeyCode::PageUp => Action::Console(ConsoleAction::PageUp),
        KeyCode::PageDown => Action::Console(ConsoleAction::PageDown),
        KeyCode::End => Action::Console(ConsoleAction::Bottom),
        KeyCode::Home => Action::Console(ConsoleAction::Top),
        _ => Action::Ignore,
    }
}

/// Keys on the command line.
pub open spec fn input_key(key: Key) -> Action {
    let control = key.modifiers is Control;
    match key.code {
        KeyCode::Enter => Action::Input(InputAction::Submit),
        KeyCode::Up => Action::Input(InputAction::Earlier),
        KeyCode::Down => Action::Input(InputAction::Later),
        KeyCode::Left => Action::Input(
            if control {
                InputAction::WordLeft
            } else {
                InputAction::Left
            },
        ),
        KeyCode::Right => Action::Input(
            if control {
                InputAction::WordRight
            } else {
                InputAction::Right
            },
        ),
        KeyCode::Home => Action::Input(InputAction::Home),
        KeyCode::End => Action::Input(InputAction::End),
        KeyCode::Backspace => Action::Input(InputAction::DeleteBack),
        KeyCode::Delete => Action::Input(InputAction::DeleteForward),
        KeyCode::Esc => Action::Input(InputAction::Escape),
        KeyCode::Char(c) => if control && c == 'u' {
            Action::Input(InputAction::Clear)
        } else if control && c == 'k' {
            Action::Input(InputAction::KillToEnd)
        } else {
            match typed(key) {
                Some(t) => Action::Input(InputAction::Insert(t)),
                None => Action::Ignore,
            }
        },
        _ => Action::Ignore,
    }
}

fn read_input_key(key: Key) -> (r: Action)
    ensures
        r == input_key(key),
{
    let control = key.modifiers == Modifiers::Control;
    match key.code {
        KeyCode::Enter => Action::Input(InputAction::Submit),
        KeyCode::Up => Action::Input(InputAction::Earlier),
        KeyCode::Down => Action::Input(InputAction::Later),
        KeyCode::Left => if control {
            Action::Input(InputAction::WordLeft)
        } else {
            Action::Input(InputAction::Left)
        },
        KeyCode::Right => if control {
            Action::Input(InputAction::WordRight)
        } else {
            Action::Input(InputAction::Right)
        },
        KeyCode::Home => Action::Input(InputAction::Home),
        KeyCode::End => Action::Input(InputAction::End),
        KeyCode::Backspace => Action::Input(InputAction::DeleteBack),
        KeyCode::Delete => Action::Input(InputAction::DeleteForward),
        KeyCode::Esc => Action::Input(InputAction::Escape),
        KeyCode::Char(c) => if control && c == 'u' {
            Action::Input(InputAction::Clear)
        } else if control && c == 'k' {
            Action::Input(InputAction::KillToEnd)
        } else {
            match typed_char(key) {
                Some(t) => Action::Input(InputAction::Insert(t)),
                None => Action::Ignore,
            }
        },
        _ => Action::Ignore,
    }
}

/// Resume, hold and reset, which are at hand in two panes.
pub open spec fn machine_byte(key: Key) -> Option<u8> {
    if key.code == KeyCode::Char('~') {
        Some(0x7e)
    } else if key.code == KeyCode::Char('!') {
        Some(0x21)
    } else if key.code == KeyCode::Char('x') && key.modifiers is Control {
        Some(0x18)
    } else {
        None
    }
}

fn read_machine_byte(key: Key) -> (r: Option<u8>)
    ensures
        r == machine_byte(key),
{
    if key.code == KeyCode::Char('~') {
        Some(0x7e)
    } else if key.code == KeyCode::Char('!') {
        Some(0x21)
    } else if key.code == KeyCode::Char('x') && key.modifiers == Modifiers::Control {
        Some(0x18)
    } else {
        None
    }
}

/// The direction in which a key jogs.
pub open spec fn jog_direction(key: Key) -> Option<JogDir> {
    let plain = key.modifiers is Plain;
    if plain && (key.code is Left || key.code == KeyCode::Char('h')) {
        Some(JogDir::XMinus)
    } else if plain && (key.code is Right || key.code == KeyCode::Char('l')) {
        Some(JogDir::XPlus)
    } else if plain && upward(key.code) {
        Some(JogDir::YPlus)
    } else if plain && downward(key.code) {
        Some(JogDir::YMinus)
    } else if key.code is PageUp {
        Some(JogDir::ZPlus)
    } else if key.code is PageDown {
        Some(JogDir::ZMinus)
    } else {
        None
    }
}

fn read_jog_direction(key: Key) -> (r: Option<JogDir>)
    ensures
        r == jog_direction(key),
{
    let plain = key.modifiers == Modifiers::Plain;
    if plain && (key.code == KeyCode::Left || key.code == KeyCode::Char('h')) {
        Some(JogDir::XMinus)
    } else if plain && (key.code == KeyCode::Right || key.code == KeyCode::Char('l')) {
        Some(JogDir::XPlus)
    } else if plain && is_upward(key.code) {
        Some(JogDir::YPlus)
    } else if plain && is_downward(key.code) {
        Some(JogDir::YMinus)
    } else if key.code == KeyCode::PageUp {
        Some(JogDir::ZPlus)
    } else if key.code == KeyCode::PageDown {
        Some(JogDir::ZMinus)
    } else {
        None
    }
}

/// Keys in the pane for jogging.
pub open spec fn jog_key(key: Key) -> Action {
    let shift = key.modifiers is Shift;
    if let Some(dir) = jog_direction(key) {
        Action::Control(ControlAction::Jog(dir))
    } else if let Some(byte) = machine_byte(key) {
        Action::Control(ControlAction::Byte(byte))
    } else if letter(key.code, '+', '=') {
        Action::Control(ControlAction::LargerStep)
    } else if letter(key.code, '-', '_') {
        Action::Control(ControlAction::SmallerStep)
    } else if key.code == KeyCode::Char('X') && shift {
        Action::Control(ControlAction::Unlock)
    } else if key.code == KeyCode::Char('H') && shift {
        Action::Control(ControlAction::Home)
    } else if key.code == KeyCode::Char('$') {
        Action::Control(ControlAction::ListSettings)
    } else if letter(key.code, 'g', 'G') {
        Action::Control(ControlAction::ParserState)
    } else if letter(key.code, 'p', 'P') {
        Action::Control(ControlAction::TogglePolling)
    } else if key.code is Esc {
        Action::Control(ControlAction::Byte(0x85))
    } else {
        Action::Ignore
    }
}

fn read_jog_key(key: Key) -> (r: Action)
    ensures
        r == jog_key(key),
{
    let shift = key.modifiers == Modifiers::Shift;
    if let Some(dir) = read_jog_direction(key) {
        return Action::Control(ControlAction::Jog(dir));
    }
    if let Some(byte) = read_machine_byte(key) {
        return Action::Control(ControlAction::Byte(byte));
    }
    if is_letter(key.code, '+', '=') {
        Action::Control(ControlAction::LargerStep)
    } else if is_letter(key.code, '-', '_') {
        Action::Control(ControlAction::SmallerStep)
    } else if key.code == KeyCode::Char('X') && shift {
        Action::Control(ControlAction::Unlock)
    } else if key.code == KeyCode::Char('H') && shift {
        Action::Control(ControlAction::Home)
    } else if key.code == KeyCode::Char('$') {
        Action::Control(ControlAction::ListSettings)
    } else if is_letter(key.code, 'g', 'G') {
        Action::Control(ControlAction::ParserState)
    } else if is_letter(key.code, 'p', 'P') {
        Action::Control(ControlAction::TogglePolling)
    } else if key.code == KeyCode::Esc {
        Action::Control(ControlAction::Byte(0x85))
    } else {
        Action::Ignore
    }
}

/// Keys in the pane for overrides.  The bytes from 0x90 set the feed rate, those
/// from 0x95 the rapid rate, those from 0x99 the laser power.
pub open spec fn override_key(key: Key) -> Action {
    let code = key.code;
    if letter(code, 'f', 'F') {
        Action::Override(OverrideAction::ResetFeed)
    } else if code is Up || letter(code, '+', '=') {
        Action::Override(OverrideAction::Byte(0x91))
    } else if code is Down || code == KeyCode::Char('-') {
        Action::Override(OverrideAction::Byte(0x92))
    } else if code is Right {
        Action::Override(OverrideAction::Byte(0x93))
    } else if code is Left {
        Action::Override(OverrideAction::Byte(0x94))
    } else if letter(code, 'r', 'R') {
        Action::Override(OverrideAction::ResetRapid)
    } else if code == KeyCode::Char('5') {
        Action::Override(OverrideAction::Byte(0x96))
    } else if code == KeyCode::Char('2') {
        Action::Override(OverrideAction::Byte(0x97))
    } else if letter(code, 's', 'S') {
        Action::Override(OverrideAction::ResetPower)
    } else if code == KeyCode::Char('0') {
        Action::Override(OverrideAction::ResetAll)
    } else if code is PageUp {
        Action::Override(OverrideAction::Byte(0x9a))
    } else if code is PageDown {
        Action::Override(OverrideAction::Byte(0x9b))
    } else {
        match machine_byte(key) {
            Some(byte) => Action::Override(OverrideAction::Byte(byte)),
            None => Action::Ignore,
        }
    }
}

fn read_override_key(key: Key) -> (r: Action)
    ensures
        r == override_key(key),
{
    let code = key.code;
    if is_letter(code, 'f', 'F') {
        Action::Override(OverrideAction::ResetFeed)
    } else if code == KeyCode::Up || is_letter(code, '+', '=') {
        Action::Override(OverrideAction::Byte(0x91))
    } else if code == KeyCode::Down || code == KeyCode::Char('-') {
        Action::Override(OverrideAction::Byte(0x92))
    } else if code == KeyCode::Right {
        Action::Override(OverrideAction::Byte(0x93))
    } else if code == KeyCode::Left {
        Action::Override(OverrideAction::Byte(0x94))
    } else if is_letter(code, 'r', 'R') {
        Action::Override(OverrideAction::ResetRapid)
    } else if code == KeyCode::Char('5') {
        Action::Override(OverrideAction::Byte(0x96))
    } else if code == KeyCode::Char('2') {
        Action::Override(OverrideAction::Byte(0x97))
    } else if is_letter(code, 's', 'S') {
        Action::Override(OverrideAction::ResetPower)
    } else if code == KeyCode::Char('0') {
        Action::Override(OverrideAction::ResetAll)
    } else if code == KeyCode::PageUp {
        Action::Override(OverrideAction::Byte(0x9a))
    } else if code == KeyCode::PageDown {
        Action::Override(OverrideAction::Byte(0x9b))
    } else {
        match read_machine_byte(key) {
            Some(byte) => Action::Override(OverrideAction::Byte(byte)),
            None => Action::Ignore,
        }
    }
}

/// Keys in the list of the controller's settings.
pub open spec fn list_key(code: KeyCode) -> Action {
    if upward(code) {
        Action::List(ListAction::Previous)
    } else if downward(code) {
        Action::List(ListAction::Next)
    } else if letter(code, 'r', 'R') {
        Action::List(ListAction::Request)
    } else {
        Action::Ignore
    }
}

fn read_list_key(code: KeyCode) -> (r: Action)
    ensures
        r == list_key(code),
{
    if is_upward(code) {
        Action::List(ListAction::Previous)
    } else if is_downward(code) {
        Action::List(ListAction::Next)
    } else if is_letter(code, 'r', 'R') {
        Action::List(ListAction::Request)
    } else {
        Action::Ignore
    }
}

/// Keys on the G-code tab.
pub open spec fn job_key(code: KeyCode, layered: bool, image: bool) -> Action {
    if letter(code, 'o', 'O') {
        Action::Job(JobAction::Open)
    } else if letter(code, 'c', 'C') {
        Action::Job(JobAction::Convert)
    } else if letter(code, 's', 'S') {
        Action::Job(JobAction::Save)
    } else if letter(code, 'g', 'G') {
        Action::Job(JobAction::Send)
    } else if letter(code, 'a', 'A') {
        Action::Job(JobAction::Abort)
    } else if letter(code, 'f', 'F') {
        Action::Job(JobAction::Frame)
    } else if letter(code, 'l', 'L') && layered {
        Action::Job(JobAction::FocusLayers)
    } else if letter(code, 'i', 'I') && image {
        Action::Job(JobAction::Invert)
    } else if letter(code, 'x', 'X') {
        Action::Job(JobAction::EditOffset(Axis::X))
    } else if letter(code, 'y', 'Y') {
        Action::Job(JobAction::EditOffset(Axis::Y))
    } else if upward(code) {
        Action::Job(JobAction::Up)
    } else if downward(code) {
        Action::Job(JobAction::Down)
    } else {
        match code {
            KeyCode::PageUp => Action::Job(JobAction::PageUp),
            KeyCode::PageDown => Action::Job(JobAction::PageDown),
            KeyCode::Home => Action::Job(JobAction::Top),
            KeyCode::End => Action::Job(JobAction::Bottom),
            _ => Action::Ignore,
        }
    }
}

fn read_job_key(code: KeyCode, layered: bool, image: bool) -> (r: Action)
    ensures
        r == job_key(code, layered, image),
{
    if is_letter(code, 'o', 'O') {
        return Action::Job(JobAction::Open);
    }
    if is_letter(code, 'c', 'C') {
        return Action::Job(JobAction::Convert);
    }
    if is_letter(code, 's', 'S') {
        return Action::Job(JobAction::Save);
    }
    if is_letter(code, 'g', 'G') {
        return Action::Job(JobAction::Send);
    }
    if is_letter(code, 'a', 'A') {
        return Action::Job(JobAction::Abort);
    }
    if is_letter(code, 'f', 'F') {
        return Action::Job(JobAction::Frame);
    }
    if is_letter(code, 'l', 'L') && layered {
        return Action::Job(JobAction::FocusLayers);
    }
    if is_letter(code, 'i', 'I') && image {
        return Action::Job(JobAction::Invert);
    }
    if is_letter(code, 'x', 'X') {
        return Action::Job(JobAction::EditOffset(Axis::X));
    }
    if is_letter(code, 'y', 'Y') {
        return Action::Job(JobAction::EditOffset(Axis::Y));
    }
    if is_upward(code) {
        return Action::Job(JobAction::Up);
    }
    if is_downward(code) {
        return Action::Job(JobAction::Down);
    }
    match code {
        KeyCode::PageUp => Action::Job(JobAction::PageUp),
        KeyCode::PageDown => Action::Job(JobAction::PageDown),
        KeyCode::Home => Action::Job(JobAction::Top),
        KeyCode::End => Action::Job(JobAction::Bottom),
        _ => Action::Ignore,
    }
}

/// Keys while the shift of the job is edited.
pub open spec fn offset_key(key: Key) -> Action {
    match key.code {
        KeyCode::Enter => Action::Offset(OffsetAction::Commit),
        KeyCode::Esc => Action::Offset(OffsetAction::Cancel),
        KeyCode::Backspace => Action::Offset(OffsetAction::Backspace),
        _ => match typed(key) {
            Some(c) => Action::Offset(OffsetAction::Type(c)),
            None => Action::Ignore,
        },
    }
}

fn read_offset_key(key: Key) -> (r: Action)
    ensures
        r == offset_key(key),
{
    match key.code {
        KeyCode::Enter => Action::Offset(OffsetAction::Commit),
        KeyCode::Esc => Action::Offset(OffsetAction::Cancel),
        KeyCode::Backspace => Action::Offset(OffsetAction::Backspace),
        _ => match typed_char(key) {
            Some(c) => Action::Offset(OffsetAction::Type(c)),
            None => Action::Ignore,
        },
    }
}

/// Keys in the list of layers.
pub open spec fn layer_key(key: Key, editing: bool) -> Action {
    let code = key.code;
    if editing {
        match code {
            KeyCode::Enter => Action::Layer(LayerAction::Commit),
            KeyCode::Esc => Action::Layer(LayerAction::Cancel),
            KeyCode::Backspace => Action::Layer(LayerAction::Backspace),
            _ => match typed(key) {
                Some(c) => Action::Layer(LayerAction::Type(c)),
                None => Action::Ignore,
            },
        }
    } else if upward(code) {
        Action::Layer(LayerAction::Previous)
    } else if downward(code) {
        Action::Layer(LayerAction::Next)
    } else if letter(code, 'f', 'F') {
        Action::Layer(LayerAction::Edit(0))
    } else if letter(code, 'p', 'P') {
        Action::Layer(LayerAction::Edit(1))
    } else if letter(code, 'n', 'N') {
        Action::Layer(LayerAction::Edit(2))
    } else if letter(code, 'm', 'M') {
        Action::Layer(LayerAction::CycleMode)
    } else if letter(code, 'r', 'R') {
        Action::Layer(LayerAction::Reset)
    } else if code is Esc || letter(code, 'l', 'L') {
        Action::Layer(LayerAction::Leave)
    } else {
        Action::Ignore
    }
}

fn read_layer_key(key: Key, editing: bool) -> (r: Action)
    ensures
        r == layer_key(key, editing),
{
    let code = key.code;
    if editing {
        return match code {
            KeyCode::Enter => Action::Layer(LayerAction::Commit),
            KeyCode::Esc => Action::Layer(LayerAction::Cancel),
            KeyCode::Backspace => Action::Layer(LayerAction::Backspace),
            _ => match typed_char(key) {
                Some(c) => Action::Layer(LayerAction::Type(c)),
                None => Action::Ignore,
            },
        };
    }
    if is_upward(code) {
        Action::Layer(LayerAction::Previous)
    } else if is_downward(code) {
        Action::Layer(LayerAction::Next)
    } else if is_letter(code, 'f', 'F') {
        Action::Layer(LayerAction::Edit(0))
    } else if is_letter(code, 'p', 'P') {
        Action::Layer(LayerAction::Edit(1))
    } else if is_letter(code, 'n', 'N') {
        Action::Layer(LayerAction::Edit(2))
    } else if is_letter(code, 'm', 'M') {
        Action::Layer(LayerAction::CycleMode)
    } else if is_letter(code, 'r', 'R') {
        Action::Layer(LayerAction::Reset)
    } else if code == KeyCode::Esc || is_letter(code, 'l', 'L') {
        Action::Layer(LayerAction::Leave)
    } else {
        Action::Ignore
    }
}

/// Keys on the settings tab, while no field is edited.
pub open spec fn settings_key(code: KeyCode, selected: usize) -> Action {
    if upward(code) {
        Action::Settings(SettingsAction::Previous)
    } else if downward(code) {
        Action::Settings(SettingsAction::Next)
    } else if code is Home {
        Action::Settings(SettingsAction::First)
    } else if code is End {
        Action::Settings(SettingsAction::Last)
    } else if code is Enter || letter(code, 'e', 'E') {
        if selected >= settings::FIRST_SWITCH {
            Action::Settings(SettingsAction::Toggle)
        } else {
            Action::Settings(SettingsAction::Begin)
        }
    } else if code == KeyCode::Char(' ') {
        Action::Settings(SettingsAction::Toggle)
    } else if letter(code, 'r', 'R') {
        Action::Settings(SettingsAction::Reset)
    } else {
        Action::Ignore
    }
}

fn read_settings_key(code: KeyCode, selected: usize) -> (r: Action)
    ensures
        r == settings_key(code, selected),
{
    if is_upward(code) {
        Action::Settings(SettingsAction::Previous)
    } else if is_downward(code) {
        Action::Settings(SettingsAction::Next)
    } else if code == KeyCode::Home {
        Action::Settings(SettingsAction::First)
    } else if code == KeyCode::End {
        Action::Settings(SettingsAction::Last)
    } else if code == KeyCode::Enter || is_letter(code, 'e', 'E') {
        if selected >= settings::FIRST_SWITCH {
            Action::Settings(SettingsAction::Toggle)
        } else {
            Action::Settings(SettingsAction::Begin)
        }
    } else if code == KeyCode::Char(' ') {
        Action::Settings(SettingsAction::Toggle)
    } else if is_letter(code, 'r', 'R') {
        Action::Settings(SettingsAction::Reset)
    } else {
        Action::Ignore
    }
}

/// Keys on the settings tab, while a field is edited.
pub open spec fn edit_key(key: Key) -> Action {
    match key.code {
        KeyCode::Enter => Action::Settings(SettingsAction::Commit),
        KeyCode::Esc => Action::Settings(SettingsAction::Cancel),
        KeyCode::Backspace => Action::Settings(SettingsAction::Backspace),
        _ => match typed(key) {
            Some(c) => Action::Settings(SettingsAction::Type(c)),
            None => Action::Ignore,
        },
    }
}

fn read_edit_key(key: Key) -> (r: Action)
    ensures
        r == edit_key(key),
{
    match key.code {
        KeyCode::Enter => Action::Settings(SettingsAction::Commit),
        KeyCode::Esc => Action::Settings(SettingsAction::Cancel),
        KeyCode::Backspace => Action::Settings(SettingsAction::Backspace),
        _ => match typed_char(key) {
            Some(c) => Action::Settings(SettingsAction::Type(c)),
            None => Action::Ignore,
        },
    }
}

/// Keys that mean the same on every tab.
pub open spec fn global_key(app: App, key: Key) -> Option<Action> {
    let code = key.code;
    let tab = app.screen.active_tab;
    if letter(code, 'q', 'Q') && key.modifiers is Plain && !(app.screen.focused is CommandInput) {
        Some(Action::Quit)
    } else if code == KeyCode::Char('c') && key.modifiers is Control {
        Some(Action::Quit)
    } else if code == KeyCode::Char('?') {
        Some(Action::OpenHelp)
    } else if code == KeyCode::F(1) {
        Some(Action::Show(ActiveTab::Connect))
    } else if code == KeyCode::F(2) {
        Some(Action::Show(ActiveTab::Control))
    } else if code == KeyCode::F(3) {
        Some(Action::Show(ActiveTab::GCode))
    } else if code == KeyCode::F(4) {
        Some(Action::Show(ActiveTab::Preview))
    } else if code == KeyCode::F(5) {
        Some(Action::Show(ActiveTab::Settings))
    } else if code is Tab && tab is Connect {
        Some(Action::NextPane)
    } else if code is BackTab && tab is Connect {
        Some(Action::PreviousPane)
    } else if code is Tab && tab is Control {
        Some(Action::NextControl)
    } else if code is BackTab && tab is Control {
        Some(Action::PreviousControl)
    } else {
        None
    }
}

fn read_global_key(app: &App, key: Key) -> (r: Option<Action>)
    ensures
        r == global_key(*app, key),
{
    let code = key.code;
    let tab = app.screen.active_tab;
    if is_letter(code, 'q', 'Q') && key.modifiers == Modifiers::Plain && app.screen.focused
        != FocusedPane::CommandInput {
        Some(Action::Quit)
    } else if code == KeyCode::Char('c') && key.modifiers == Modifiers::Control {
        Some(Action::Quit)
    } else if code == KeyCode::Char('?') {
        Some(Action::OpenHelp)
    } else if code == KeyCode::F(1) {
        Some(Action::Show(ActiveTab::Connect))
    } else if code == KeyCode::F(2) {
        Some(Action::Show(ActiveTab::Control))
    } else if code == KeyCode::F(3) {
        Some(Action::Show(ActiveTab::GCode))
    } else if code == KeyCode::F(4) {
        Some(Action::Show(ActiveTab::Preview))
    } else if code == KeyCode::F(5) {
        Some(Action::Show(ActiveTab::Settings))
    } else if code == KeyCode::Tab && tab == ActiveTab::Connect {
        Some(Action::NextPane)
    } else if code == KeyCode::BackTab && tab == ActiveTab::Connect {
        Some(Action::PreviousPane)
    } else if code == KeyCode::Tab && tab == ActiveTab::Control {
        Some(Action::NextControl)
    } else if code == KeyCode::BackTab && tab == ActiveTab::Control {
        Some(Action::PreviousControl)
    } else {
        None
    }
}

/// Keys by the pane that has the keyboard.
pub open spec fn pane_key(app: App, key: Key) -> Action {
    let code = key.code;
    let connected = app.ports.mode is Connected;
    match app.screen.active_tab {
        ActiveTab::Connect => match app.screen.focused {
            FocusedPane::SerialList => port_key(code, connected),
            FocusedPane::Console => console_key(code),
            FocusedPane::CommandInput => if connected {
                input_key(key)
            } else {
                Action::Ignore
            },
        },
        ActiveTab::Control => match app.screen.control_focus {
            ControlFocus::Jog => jog_key(key),
            ControlFocus::Overrides => override_key(key),
            ControlFocus::Settings => list_key(code),
        },
        ActiveTab::GCode => match app.screen.gcode_focus {
            GCodeFocus::GCode => if app.offset is Some {
                offset_key(key)
            } else {
                job_key(code, app.panel.layers@.len() > 0, app.work.is_image_source)
            },
            GCodeFocus::Layers => layer_key(key, app.panel.layer_edit_field is Some),
        },
        ActiveTab::Preview => if letter(code, 'p', 'P') {
            Action::Render
        } else if letter(code, 't', 'T') {
            Action::ToggleTravel
        } else {
            Action::Ignore
        },
        ActiveTab::Settings => if app.config.settings_edit_buf is Some {
            edit_key(key)
        } else {
            settings_key(code, app.config.settings_selected)
        },
    }
}

fn read_pane_key(app: &App, key: Key) -> (r: Action)
    ensures
        r == pane_key(*app, key),
{
    let code = key.code;
    let connected = app.ports.mode == AppMode::Connected;
    match app.screen.active_tab {
        ActiveTab::Connect => match app.screen.focused {
            FocusedPane::SerialList => read_port_key(code, connected),
            FocusedPane::Console => read_console_key(code),
            FocusedPane::CommandInput => if connected {
                read_input_key(key)
            } else {
                Action::Ignore
            },
        },
        ActiveTab::Control => match app.screen.control_focus {
            ControlFocus::Jog => read_jog_key(key),
            ControlFocus::Overrides => read_override_key(key),
            ControlFocus::Settings => read_list_key(code),
        },
        ActiveTab::GCode => match app.screen.gcode_focus {
            GCodeFocus::GCode => if app.offset.is_some() {
                read_offset_key(key)
            } else {
                read_job_key(code, app.panel.layers.len() > 0, app.work.is_image_source)
            },
            GCodeFocus::Layers => read_layer_key(key, app.panel.layer_edit_field.is_some()),
        },
        ActiveTab::Preview => if is_letter(code, 'p', 'P') {
            Action::Render
        } else if is_letter(code, 't', 'T') {
            Action::ToggleTravel
        } else {
            Action::Ignore
        },
        ActiveTab::Settings => if app.config.settings_edit_buf.is_some() {
            read_edit_key(key)
        } else {
            read_settings_key(code, app.config.settings_selected)
        },
    }
}

/// What a key means.  The help and a popup take all keys; the list of baud rates
/// takes what is left by the keys that mean the same everywhere.
pub open spec fn meaning(app: App, show_help: bool, key: Key) -> Action {
    let code = key.code;
    if show_help {
        if code == KeyCode::Char('?') || code is Esc || code is Enter {
            Action::CloseHelp
        } else {
            Action::Ignore
        }
    } else if app.work.conversion_error_popup is Some {
        if code is Esc || code is Enter || code == KeyCode::Char(' ') {
            Action::DismissError
        } else {
            Action::Ignore
        }
    } else if let Some(action) = global_key(app, key) {
        action
    } else if app.screen.baud_dropdown_open {
        baud_key(code)
    } else {
        pane_key(app, key)
    }
}

/// What a key means.
pub fn read_key(app: &App, show_help: bool, key: Key) -> (r: Action)
    ensures
        r == meaning(*app, show_help, key),
{
    let code = key.code;
    if show_help {
        return if code == KeyCode::Char('?') || code == KeyCode::Esc || code == KeyCode::Enter {
            Action::CloseHelp
        } else {
            Action::Ignore
        };
    }
    if app.work.conversion_error_popup.is_some() {
        return if code == KeyCode::Esc || code == KeyCode::Enter || code == KeyCode::Char(' ') {
            Action::DismissError
        } else {
            Action::Ignore
        };
    }
    if let Some(action) = read_global_key(app, key) {
        return action;
    }
    if app.screen.baud_dropdown_open {
        return read_baud_key(code);
    }
    read_pane_key(app, key)
}

/// While the help is shown, keys close it or do nothing.
pub proof fn help_takes_all_keys(app: App, key: Key)
    ensures
        meaning(app, true, key) is CloseHelp || meaning(app, true, key) is Ignore,
{
}

/// While a popup is shown, keys dismiss it or do nothing; `Esc` and `Enter`
/// dismiss it.
pub proof fn popup_takes_all_keys(app: App, key: Key)
    requires
        app.work.conversion_error_popup is Some,
    ensures
        meaning(app, false, key) is DismissError || meaning(app, false, key) is Ignore,
        key.code is Esc || key.code is Enter ==> meaning(app, false, key) is DismissError,
{
}

/// Without a connection no key sends a command that the user typed.
pub proof fn nothing_is_entered_without_a_connection(app: App, help: bool, key: Key)
    requires
        app.ports.mode is Disconnected,
    ensures
        !(meaning(app, help, key) is Input),
{
}

/// On the command line every plain character but `?` is typed, those included
/// that mean something elsewhere.
pub proof fn characters_are_typed(app: App, c: char)
    requires
        app.ports.mode is Connected,
        app.screen.active_tab is Connect,
        app.screen.focused is CommandInput,
        app.work.conversion_error_popup is None,
        !app.screen.baud_dropdown_open,
        c != '?',
    ensures
        meaning(
            app,
            false,
            (Key { code: KeyCode::Char(c), modifiers: Modifiers::Plain }),
        ) == Action::Input(InputAction::Insert(c)),
{
}

/// Arrows and their letters jog in the direction they point to, up and down the
/// page along the third axis, and no other key jogs.
pub proof fn arrows_jog_where_they_point(key: Key)
    ensures
        ({
            let a = jog_key(key);
            let plain = key.modifiers is Plain;
            &&& a == Action::Control(ControlAction::Jog(JogDir::XMinus)) <==> plain && (
            key.code is Left || key.code == KeyCode::Char('h'))
            &&& a == Action::Control(ControlAction::Jog(JogDir::XPlus)) <==> plain && (
            key.code is Right || key.code == KeyCode::Char('l'))
            &&& a == Action::Control(ControlAction::Jog(JogDir::YPlus)) <==> plain && (
            key.code is Up || key.code == KeyCode::Char('k'))
            &&& a == Action::Control(ControlAction::Jog(JogDir::YMinus)) <==> plain && (
            key.code is Down || key.code == KeyCode::Char('j'))
            &&& a == Action::Control(ControlAction::Jog(JogDir::ZPlus)) <==> key.code is PageUp
            &&& a == Action::Control(ControlAction::Jog(JogDir::ZMinus)) <==> key.code is PageDown
        }),
{
}

/// The keys of the machine: which one changes the step, unlocks, homes, asks or
/// sends a real-time byte.
pub proof fn machine_keys_do_what_they_name(key: Key)
    ensures
        ({
            let a = jog_key(key);
            let c = |x: char| key.code == KeyCode::Char(x);
            let shift = key.modifiers is Shift;
            &&& a == Action::Control(ControlAction::LargerStep) <==> c('+') || c('=')
            &&& a == Action::Control(ControlAction::SmallerStep) <==> c('-') || c('_')
            &&& a == Action::Control(ControlAction::Unlock) <==> c('X') && shift
            &&& a == Action::Control(ControlAction::Home) <==> c('H') && shift
            &&& a == Action::Control(ControlAction::ListSettings) <==> c('$')
            &&& a == Action::Control(ControlAction::ParserState) <==> c('g') || c('G')
            &&& a == Action::Control(ControlAction::TogglePolling) <==> c('p') || c('P')
            &&& a == Action::Control(ControlAction::Byte(0x85)) <==> key.code is Esc
            &&& a == Action::Control(ControlAction::Byte(0x7e)) <==> c('~')
            &&& a == Action::Control(ControlAction::Byte(0x21)) <==> c('!')
            &&& a == Action::Control(ControlAction::Byte(0x18)) <==> c('x')
                && key.modifiers is Control
        }),
{
}

/// The keys of the overrides: each raises, lowers or resets its own, and resuming,
/// holding and resetting are at hand as they are for jogging.
pub proof fn override_keys_do_what_they_name(key: Key)
    ensures
        ({
            let a = override_key(key);
            let c = |x: char| key.code == KeyCode::Char(x);
            &&& a == Action::Override(OverrideAction::ResetFeed) <==> c('f') || c('F')
            &&& a == Action::Override(OverrideAction::ResetRapid) <==> c('r') || c('R')
            &&& a == Action::Override(OverrideAction::ResetPower) <==> c('s') || c('S')
            &&& a == Action::Override(OverrideAction::ResetAll) <==> c('0')
            &&& a == Action::Override(OverrideAction::Byte(0x91)) <==> key.code is Up || c('+')
                || c('=')
            &&& a == Action::Override(OverrideAction::Byte(0x92)) <==> key.code is Down || c('-')
            &&& a == Action::Override(OverrideAction::Byte(0x93)) <==> key.code is Right
            &&& a == Action::Override(OverrideAction::Byte(0x94)) <==> key.code is Left
            &&& a == Action::Override(OverrideAction::Byte(0x96)) <==> c('5')
            &&& a == Action::Override(OverrideAction::Byte(0x97)) <==> c('2')
            &&& a == Action::Override(OverrideAction::Byte(0x9a)) <==> key.code is PageUp
            &&& a == Action::Override(OverrideAction::Byte(0x9b)) <==> key.code is PageDown
            &&& a == Action::Override(OverrideAction::Byte(0x7e)) <==> c('~')
            &&& a == Action::Override(OverrideAction::Byte(0x21)) <==> c('!')
            &&& a == Action::Override(OverrideAction::Byte(0x18)) <==> c('x')
                && key.modifiers is Control
        }),
{
}

/// The keys of a job: each letter, in either case, does one thing; layers can be
/// gone to only if there are some, and only an image can be inverted.
pub proof fn job_keys_do_what_they_name(code: KeyCode, layered: bool, image: bool)
    ensures
        ({
            let a = job_key(code, layered, image);
            let c = |x: char| code == KeyCode::Char(x);
            &&& a == Action::Job(JobAction::Open) <==> c('o') || c('O')
            &&& a == Action::Job(JobAction::Convert) <==> c('c') || c('C')
            &&& a == Action::Job(JobAction::Save) <==> c('s') || c('S')
            &&& a == Action::Job(JobAction::Send) <==> c('g') || c('G')
            &&& a == Action::Job(JobAction::Abort) <==> c('a') || c('A')
            &&& a == Action::Job(JobAction::Frame) <==> c('f') || c('F')
            &&& a == Action::Job(JobAction::FocusLayers) <==> layered && (c('l') || c('L'))
            &&& a == Action::Job(JobAction::Invert) <==> image && (c('i') || c('I'))
            &&& a == Action::Job(JobAction::EditOffset(Axis::X)) <==> c('x') || c('X')
            &&& a == Action::Job(JobAction::EditOffset(Axis::Y)) <==> c('y') || c('Y')
            &&& a == Action::Job(JobAction::Up) <==> code is Up || c('k')
            &&& a == Action::Job(JobAction::Down) <==> code is Down || c('j')
            &&& a == Action::Job(JobAction::PageUp) <==> code is PageUp
            &&& a == Action::Job(JobAction::PageDown) <==> code is PageDown
            &&& a == Action::Job(JobAction::Top) <==> code is Home
            &&& a == Action::Job(JobAction::Bottom) <==> code is End
        }),
{
}

/// The keys in the list of layers: each letter edits its own override; while one
/// is edited, characters are typed into it.
pub proof fn layer_keys_do_what_they_name(key: Key)
    ensures
        ({
            let a = layer_key(key, false);
            let c = |x: char| key.code == KeyCode::Char(x);
            &&& a == Action::Layer(LayerAction::Previous) <==> key.code is Up || c('k')
            &&& a == Action::Layer(LayerAction::Next) <==> key.code is Down || c('j')
            &&& a == Action::Layer(LayerAction::Edit(0)) <==> c('f') || c('F')
            &&& a == Action::Layer(LayerAction::Edit(1)) <==> c('p') || c('P')
            &&& a == Action::Layer(LayerAction::Edit(2)) <==> c('n') || c('N')
            &&& a == Action::Layer(LayerAction::CycleMode) <==> c('m') || c('M')
            &&& a == Action::Layer(LayerAction::Reset) <==> c('r') || c('R')
            &&& a == Action::Layer(LayerAction::Leave) <==> key.code is Esc || c('l') || c('L')
        }),
{
}

/// While something is edited, Enter takes it, Esc gives it up, Backspace shortens
/// it, and a character without control keys is typed, whatever it means elsewhere.
pub proof fn editing_takes_what_is_typed(key: Key, c: char)
    ensures
        key.code is Enter ==> edit_key(key) == Action::Settings(SettingsAction::Commit)
            && offset_key(key) == Action::Offset(OffsetAction::Commit) && layer_key(key, true)
            == Action::Layer(LayerAction::Commit),
        key.code is Esc ==> edit_key(key) == Action::Settings(SettingsAction::Cancel)
            && offset_key(key) == Action::Offset(OffsetAction::Cancel) && layer_key(key, true)
            == Action::Layer(LayerAction::Cancel),
        key.code is Backspace ==> edit_key(key) == Action::Settings(SettingsAction::Backspace)
            && offset_key(key) == Action::Offset(OffsetAction::Backspace) && layer_key(key, true)
            == Action::Layer(LayerAction::Backspace),
        key.code == KeyCode::Char(c) && (key.modifiers is Plain || key.modifiers is Shift) ==> {
            &&& edit_key(key) == Action::Settings(SettingsAction::Type(c))
            &&& offset_key(key) == Action::Offset(OffsetAction::Type(c))
            &&& layer_key(key, true) == Action::Layer(LayerAction::Type(c))
        },
        key.code == KeyCode::Char(c) && !(key.modifiers is Plain || key.modifiers is Shift) ==> {
            &&& edit_key(key) is Ignore
            &&& offset_key(key) is Ignore
            &&& layer_key(key, true) is Ignore
        },
{
}

/// The keys of the lists: ports, baud rates, the controller's settings and the
/// console.
pub proof fn list_keys_do_what_they_name(code: KeyCode, connected: bool)
    ensures
        ({
            let c = |x: char| code == KeyCode::Char(x);
            let p = port_key(code, connected);
            let b = baud_key(code);
            let l = list_key(code);
            let t = console_key(code);
            &&& p == Action::Port(PortAction::Previous) <==> code is Up || c('k')
            &&& p == Action::Port(PortAction::Next) <==> code is Down || c('j')
            &&& p == Action::Port(PortAction::First) <==> code is Home
            &&& p == Action::Port(PortAction::Last) <==> code is End
            &&& p == Action::Port(PortAction::Refresh) <==> c('r') || c('R')
            &&& p == Action::Port(PortAction::ChooseBaud) <==> c('b') || c('B')
            &&& p == Action::Port(PortAction::Disconnect) <==> connected && (c('d') || c('D'))
            &&& p == Action::Port(PortAction::Connect) <==> !connected && code is Enter
            &&& b == Action::Baud(BaudAction::Previous) <==> code is Up || c('k')
            &&& b == Action::Baud(BaudAction::Next) <==> code is Down || c('j')
            &&& b == Action::Baud(BaudAction::Close) <==> code is Enter || code is Esc
            &&& l == Action::List(ListAction::Previous) <==> code is Up || c('k')
            &&& l == Action::List(ListAction::Next) <==> code is Down || c('j')
            &&& l == Action::List(ListAction::Request) <==> c('r') || c('R')
            &&& t == Action::Console(ConsoleAction::Up) <==> code is Up || c('k')
            &&& t == Action::Console(ConsoleAction::Down) <==> code is Down || c('j')
            &&& t == Action::Console(ConsoleAction::PageUp) <==> code is PageUp
            &&& t == Action::Console(ConsoleAction::PageDown) <==> code is PageDown
            &&& t == Action::Console(ConsoleAction::Bottom) <==> code is End
            &&& t == Action::Console(ConsoleAction::Top) <==> code is Home
        }),
{
}

/// The keys of the settings: a switch is toggled where a field is opened, the space
/// bar toggles, and the rest goes through the list or resets.
pub proof fn settings_keys_do_what_they_name(code: KeyCode, selected: usize)
    ensures
        ({
            let c = |x: char| code == KeyCode::Char(x);
            let s = settings_key(code, selected);
            let open = code is Enter || c('e') || c('E');
            &&& s == Action::Settings(SettingsAction::Begin) <==> open && selected < 12
            &&& s == Action::Settings(SettingsAction::Toggle) <==> c(' ') || (open && selected
                >= 12)
            &&& s == Action::Settings(SettingsAction::Reset) <==> c('r') || c('R')
            &&& s == Action::Settings(SettingsAction::First) <==> code is Home
            &&& s == Action::Settings(SettingsAction::Last) <==> code is End
            &&& s == Action::Settings(SettingsAction::Previous) <==> code is Up || c('k')
            &&& s == Action::Settings(SettingsAction::Next) <==> code is Down || c('j')
        }),
{
}

/// The keys of the command line: each moves the cursor, deletes or enters as it is
/// named, with the control key by words.
pub proof fn input_keys_do_what_they_name(key: Key)
    ensures
        ({
            let a = input_key(key);
            let control = key.modifiers is Control;
            &&& a == Action::Input(InputAction::Submit) <==> key.code is Enter
            &&& a == Action::Input(InputAction::Earlier) <==> key.code is Up
            &&& a == Action::Input(InputAction::Later) <==> key.code is Down
            &&& a == Action::Input(InputAction::Left) <==> key.code is Left && !control
            &&& a == Action::Input(InputAction::Right) <==> key.code is Right && !control
            &&& a == Action::Input(InputAction::WordLeft) <==> key.code is Left && control
            &&& a == Action::Input(InputAction::WordRight) <==> key.code is Right && control
            &&& a == Action::Input(InputAction::Home) <==> key.code is Home
            &&& a == Action::Input(InputAction::End) <==> key.code is End
            &&& a == Action::Input(InputAction::DeleteBack) <==> key.code is Backspace
            &&& a == Action::Input(InputAction::DeleteForward) <==> key.code is Delete
            &&& a == Action::Input(InputAction::Escape) <==> key.code is Esc
            &&& a == Action::Input(InputAction::Clear) <==> control && key.code == KeyCode::Char(
                'u',
            )
            &&& a == Action::Input(InputAction::KillToEnd) <==> control && key.code
                == KeyCode::Char('k')
        }),
{
}

/// The keys that mean the same everywhere: leaving, the help, the tabs by their
/// numbers, and the way round the panes; leaving by its letter is not taken from
/// the command line.
pub proof fn global_keys_do_what_they_name(app: App, key: Key)
    ensures
        ({
            let g = global_key(app, key);
            let f = |n: u8| key.code == KeyCode::F(n);
            let tab = app.screen.active_tab;
            &&& g == Some(Action::Quit) <==> (key.modifiers is Plain && (key.code == KeyCode::Char(
                'q',
            ) || key.code == KeyCode::Char('Q')) && !(app.screen.focused is CommandInput)) || (
            key.code == KeyCode::Char('c') && key.modifiers is Control)
            &&& g == Some(Action::OpenHelp) <==> key.code == KeyCode::Char('?')
            &&& g == Some(Action::Show(ActiveTab::Connect)) <==> f(1)
            &&& g == Some(Action::Show(ActiveTab::Control)) <==> f(2)
            &&& g == Some(Action::Show(ActiveTab::GCode)) <==> f(3)
            &&& g == Some(Action::Show(ActiveTab::Preview)) <==> f(4)
            &&& g == Some(Action::Show(ActiveTab::Settings)) <==> f(5)
            &&& g == Some(Action::NextPane) <==> key.code is Tab && tab is Connect
            &&& g == Some(Action::PreviousPane) <==> key.code is BackTab && tab is Connect
            &&& g == Some(Action::NextControl) <==> key.code is Tab && tab is Control
            &&& g == Some(Action::PreviousControl) <==> key.code is BackTab && tab is Control
        }),
{
}

/// Where neither the help nor a popup is shown, keys that mean the same everywhere
/// come first, the list of baud rates takes the rest while it is open, and then
/// the pane that has the keyboard does.
pub proof fn keys_go_to_what_is_shown(app: App, key: Key)
    requires
        app.work.conversion_error_popup is None,
    ensures
        ({
            let m = meaning(app, false, key);
            let screen = app.screen;
            let tab = screen.active_tab;
            let connected = app.ports.mode is Connected;
            &&& global_key(app, key) matches Some(a) ==> m == a
            &&& global_key(app, key) is None && screen.baud_dropdown_open ==> m == baud_key(key.code)
            &&& global_key(app, key) is None && !screen.baud_dropdown_open ==> {
                &&& tab is Connect && screen.focused is SerialList ==> m == port_key(
                    key.code,
                    connected,
                )
                &&& tab is Connect && screen.focused is Console ==> m == console_key(key.code)
                &&& tab is Connect && screen.focused is CommandInput && connected ==> m
                    == input_key(key)
                &&& tab is Control && screen.control_focus is Jog ==> m == jog_key(key)
                &&& tab is Control && screen.control_focus is Overrides ==> m == override_key(key)
                &&& tab is Control && screen.control_focus is Settings ==> m == list_key(key.code)
                &&& tab is GCode && screen.gcode_focus is GCode && app.offset is Some ==> m
                    == offset_key(key)
                &&& tab is GCode && screen.gcode_focus is GCode && app.offset is None ==> m
                    == job_key(key.code, app.panel.layers@.len() > 0, app.work.is_image_source)
                &&& tab is GCode && screen.gcode_focus is Layers ==> m == layer_key(
                    key,
                    app.panel.layer_edit_field is Some,
                )
                &&& tab is Preview ==> (m is Render <==> (key.code == KeyCode::Char('p') || key.code
                    == KeyCode::Char('P'))) && (m is ToggleTravel <==> (key.code == KeyCode::Char(
                    't',
                ) || key.code == KeyCode::Char('T')))
                &&& tab is Settings && app.config.settings_edit_buf is Some ==> m == edit_key(key)
                &&& tab is Settings && app.config.settings_edit_buf is None ==> m == settings_key(
                    key.code,
                    app.config.settings_selected,
                )
            }
        }),
{
}

/// The help closes by the key that opens it, by Enter or by Esc.
pub proof fn the_help_closes(app: App, key: Key)
    ensures
        meaning(app, true, key) is CloseHelp <==> key.code == KeyCode::Char('?') || key.code is Esc
            || key.code is Enter,
        app.work.conversion_error_popup is Some ==> (meaning(app, false, key) is DismissError <==> (
        key.code is Esc || key.code is Enter || key.code == KeyCode::Char(' '))),
{
}

} // verus!
