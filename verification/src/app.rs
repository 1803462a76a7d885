//! The state of the program and the steps that change it.
use vstd::prelude::*;

use crate::binary64::Real;
use crate::grbl::{GrblStatus, Pos3};
use crate::grbl;
use crate::input::{CommandLine, Input};
use crate::layers::{Layer, LayerMode, LayerOverrideOptions, SvgLayerInfo, TuiLayerSettings};
use crate::layers;
use crate::message::Message;
use crate::settings::MachineSettings;
use crate::settings;
use crate::talk::{Conversation, LineKind, LinkState, Talk};
use crate::text;

verus! {

// ── Tabs and panes ────────────────────────────────────────────────────────────

/// The pane of the G-code tab that has the keyboard.
#[derive(Debug, Clone, Copy, PartialEq, Eq, Structural)]
pub enum GCodeFocus {
    /// The G-code text.
    GCode,
    /// The list of layers.
    Layers,
}

/// What a popup about a failed conversion shows.
#[derive(Debug)]
pub struct ConversionErrorPopup {
    /// A title on one line.
    pub title: String,
    /// The details, on several lines.
    pub body: Message,
}

/// The tabs.
#[derive(Debug, Clone, Copy, PartialEq, Eq, Structural)]
pub enum ActiveTab {
    /// Serial connection and console.
    Connect,
    /// Direct control of the machine.
    Control,
    /// The G-code text.
    GCode,
    /// The drawing and the tool path.
    Preview,
    /// The settings.
    Settings,
}

impl ActiveTab {
    /// All tabs, in order.
    pub const ALL: [ActiveTab; 5] = [
        ActiveTab::Connect,
        ActiveTab::Control,
        ActiveTab::GCode,
        ActiveTab::Preview,
        ActiveTab::Settings,
    ];

    /// The place of a tab in the order.
    pub open spec fn place(self) -> int {
        match self {
            ActiveTab::Connect => 0,
            ActiveTab::Control => 1,
            ActiveTab::GCode => 2,
            ActiveTab::Preview => 3,
            ActiveTab::Settings => 4,
        }
    }

    /// The title of a tab.
    pub open spec fn title(self) -> Seq<char> {
        match self {
            ActiveTab::Connect => "Connect"@,
            ActiveTab::Control => "Control"@,
            ActiveTab::GCode => "GCode"@,
            ActiveTab::Preview => "Preview"@,
            ActiveTab::Settings => "Settings"@,
        }
    }

    /// The title of the tab.
    pub fn label(self) -> (r: &'static str)
        ensures
            r@ == self.title(),
    {
        match self {
            ActiveTab::Connect => "Connect",
            ActiveTab::Control => "Control",
            ActiveTab::GCode => "GCode",
            ActiveTab::Preview => "Preview",
            ActiveTab::Settings => "Settings",
        }
    }

    /// The next tab; behind the last comes the first.
    pub fn next(self) -> (r: ActiveTab)
        ensures
            r.place() == (self.place() + 1) % 5,
    {
        match self {
            ActiveTab::Connect => ActiveTab::Control,
            ActiveTab::Control => ActiveTab::GCode,
            ActiveTab::GCode => ActiveTab::Preview,
            ActiveTab::Preview => ActiveTab::Settings,
            ActiveTab::Settings => ActiveTab::Connect,
        }
    }

    /// The previous tab; before the first comes the last.
    pub fn prev(self) -> (r: ActiveTab)
        ensures
            r.place() == (self.place() + 4) % 5,
    {
        match self {
            ActiveTab::Connect => ActiveTab::Settings,
            ActiveTab::Control => ActiveTab::Connect,
            ActiveTab::GCode => ActiveTab::Control,
            ActiveTab::Preview => ActiveTab::GCode,
            ActiveTab::Settings => ActiveTab::Preview,
        }
    }
}

/// Each tab has its own place, so that going forth and back is standing still,
/// and five steps lead round.
pub proof fn tabs_form_a_ring(a: ActiveTab, b: ActiveTab)
    ensures
        a.place() == b.place() ==> a == b,
        ((a.place() + 1) % 5 + 4) % 5 == a.place(),
        ((a.place() + 4) % 5 + 1) % 5 == a.place(),
        (a.place() + 5) % 5 == a.place(),
{
}

/// The pane of the control tab that has the keyboard.
#[derive(Debug, Clone, Copy, PartialEq, Eq, Structural)]
pub enum ControlFocus {
    Jog,
    Overrides,
    Settings,
}

/// The pane of the connect tab that has the keyboard.
#[derive(Debug, Clone, Copy, PartialEq, Eq, Structural)]
pub enum FocusedPane {
    SerialList,
    Console,
    CommandInput,
}

impl ControlFocus {
    /// The next pane.
    pub open spec fn following(self) -> ControlFocus {
        match self {
            ControlFocus::Jog => ControlFocus::Overrides,
            ControlFocus::Overrides => ControlFocus::Settings,
            ControlFocus::Settings => ControlFocus::Jog,
        }
    }

    /// The previous pane.
    pub open spec fn preceding(self) -> ControlFocus {
        match self {
            ControlFocus::Jog => ControlFocus::Settings,
            ControlFocus::Overrides => ControlFocus::Jog,
            ControlFocus::Settings => ControlFocus::Overrides,
        }
    }
}

impl FocusedPane {
    /// The next pane.
    pub open spec fn following(self) -> FocusedPane {
        match self {
            FocusedPane::SerialList => FocusedPane::Console,
            FocusedPane::Console => FocusedPane::CommandInput,
            FocusedPane::CommandInput => FocusedPane::SerialList,
        }
    }

    /// The previous pane.
    pub open spec fn preceding(self) -> FocusedPane {
        match self {
            FocusedPane::SerialList => FocusedPane::CommandInput,
            FocusedPane::Console => FocusedPane::SerialList,
            FocusedPane::CommandInput => FocusedPane::Console,
        }
    }
}

/// Going to the next pane and back is standing still, in either order.
pub proof fn panes_form_rings(a: FocusedPane, b: ControlFocus)
    ensures
        a.following().preceding() == a,
        a.preceding().following() == a,
        b.following().preceding() == b,
        b.preceding().following() == b,
{
}

/// Whether there is a connection.
#[derive(Debug, Clone, Copy, PartialEq, Eq, Structural)]
pub enum AppMode {
    Disconnected,
    Connected,
}

/// The baud rates.
#[derive(Debug, Clone, Copy, PartialEq, Eq, Structural)]
pub enum BaudRate {
    B115200,
    B56000,
}

impl BaudRate {
    /// All baud rates.
    pub const ALL: [BaudRate; 2] = [BaudRate::B115200, BaudRate::B56000];

    pub open spec fn rate(self) -> u32 {
        match self {
            BaudRate::B115200 => 115_200,
            BaudRate::B56000 => 56_000,
        }
    }

    pub open spec fn title(self) -> Seq<char> {
        match self {
            BaudRate::B115200 => "115200"@,
            BaudRate::B56000 => "56000"@,
        }
    }

    /// The rate as a number.
    pub fn as_u32(self) -> (r: u32)
        ensures
            r == self.rate(),
    {
        match self {
            BaudRate::B115200 => 115_200,
            BaudRate::B56000 => 56_000,
        }
    }

    /// The rate as a text.
    pub fn label(self) -> (r: &'static str)
        ensures
            r@ == self.title(),
    {
        match self {
            BaudRate::B115200 => "115200",
            BaudRate::B56000 => "56000",
        }
    }
}

/// The text of a baud rate is the rate in decimal.
pub proof fn baud_rates_are_shown_in_decimal(b: BaudRate)
    ensures
        text::natural(b.title()) == Some(b.rate() as nat),
{
    reveal_strlit("115200");
    reveal_strlit("56000");
    reveal_with_fuel(text::digits_value, 7);
    match b {
        BaudRate::B115200 => {
            let s = "115200"@;
            assert(text::all_digits(s));
            let s5 = s.drop_last();
            let s4 = s5.drop_last();
            let s3 = s4.drop_last();
            let s2 = s3.drop_last();
            let s1 = s2.drop_last();
            assert(s1.drop_last().len() == 0);
            assert(text::digits_value(s1) == 1);
            assert(text::digits_value(s2) == 11);
            assert(text::digits_value(s3) == 115);
            assert(text::digits_value(s4) == 1152);
            assert(text::digits_value(s5) == 11520);
        },
        BaudRate::B56000 => {
            let s = "56000"@;
            assert(text::all_digits(s));
            let s4 = s.drop_last();
            let s3 = s4.drop_last();
            let s2 = s3.drop_last();
            let s1 = s2.drop_last();
            assert(s1.drop_last().len() == 0);
            assert(text::digits_value(s1) == 5);
            assert(text::digits_value(s2) == 56);
            assert(text::digits_value(s3) == 560);
            assert(text::digits_value(s4) == 5600);
        },
    }
}

/// How far a conversion has come.
#[derive(Debug)]
pub enum ConversionStatus {
    /// None was attempted.
    Idle,
    /// One is under way.
    Running,
    /// The last one succeeded.
    Okay,
    /// The last one failed, with a message.
    Failed(String),
}

/// A conversion status, with texts by their characters.
pub enum Progress {
    Idle,
    Running,
    Okay,
    Failed(Seq<char>),
}

impl View for ConversionStatus {
    type V = Progress;

    open spec fn view(&self) -> Progress {
        match *self {
            ConversionStatus::Idle => Progress::Idle,
            ConversionStatus::Running => Progress::Running,
            ConversionStatus::Okay => Progress::Okay,
            ConversionStatus::Failed(m) => Progress::Failed(m@),
        }
    }
}

// ── The state ─────────────────────────────────────────────────────────────────

/// What is on the screen and where the keyboard goes.
#[derive(Debug)]
pub struct Screen {
    pub active_tab: ActiveTab,
    pub focused: FocusedPane,
    pub control_focus: ControlFocus,
    pub gcode_focus: GCodeFocus,
    pub baud_dropdown_open: bool,
    pub should_quit: bool,
    /// Whether the whole screen is to be drawn again.
    pub needs_clear: bool,
}

/// The serial ports and the connection.
#[derive(Debug)]
pub struct Ports {
    /// The serial ports found, and the one selected.
    pub port_list: Vec<String>,
    pub port_list_selected: Option<usize>,
    pub baud_rates: Vec<BaudRate>,
    pub selected_baud_idx: usize,
    pub mode: AppMode,
    pub connected_port: Option<String>,
}

/// The file that is worked on, and the G-code made from it.
#[derive(Debug)]
pub struct Work {
    /// The path of the drawing or image.
    pub svg_path: Option<String>,
    pub gcode_text: Option<String>,
    /// The first line of the G-code text that is shown.
    pub gcode_scroll: usize,
    pub conversion_status: ConversionStatus,
    pub conversion_error_popup: Option<ConversionErrorPopup>,
    /// Whether an image was loaded, and no drawing.
    pub is_image_source: bool,
    /// The size of the image in pixels.
    pub image_dimensions: Option<(u32, u32)>,
    /// Whether bright pixels burn instead of dark ones.
    pub invert_image: bool,
}

/// What there is to look at.
#[derive(Debug)]
pub struct Preview {
    /// Whether there is an image of the drawing.
    pub has_preview: bool,
    /// Whether there is an image of the tool path.
    pub has_gcode_preview: bool,
    /// Whether rapid moves are drawn.
    pub show_travel_lines: bool,
}

/// How far a job has been streamed.
#[derive(Debug)]
pub struct Stream {
    pub is_streaming: bool,
    pub stream_sent: usize,
    pub stream_total: usize,
}

/// The layers of the drawing.
#[derive(Debug)]
pub struct LayerPanel {
    pub layers: Vec<TuiLayerSettings>,
    pub layer_selected: usize,
    /// The override that is being edited: 0 feed rate, 1 power, 2 passes.
    pub layer_edit_field: Option<usize>,
    pub layer_edit_buf: String,
    pub layer_edit_error: Option<Message>,
}

/// An axis of the work area.
#[derive(Debug, Clone, Copy, PartialEq, Eq, Structural)]
pub enum Axis {
    X,
    Y,
}

impl Axis {
    /// The field of the settings that holds the shift along an axis.
    pub open spec fn field(self) -> usize {
        match self {
            Axis::X => settings::ORIGIN_X,
            Axis::Y => settings::ORIGIN_Y,
        }
    }

    pub open spec fn letter(self) -> Seq<char> {
        match self {
            Axis::X => "X"@,
            Axis::Y => "Y"@,
        }
    }
}

/// The shift of the job along an axis, while it is edited.
#[derive(Debug)]
pub struct OffsetEdit {
    pub axis: Axis,
    /// The text entered so far.
    pub text: String,
    /// Why the text was refused.
    pub complaint: Option<String>,
}

/// The settings of the program.
#[derive(Debug)]
pub struct Config {
    pub machine_settings: MachineSettings,
    pub settings_selected: usize,
    /// The text of the field that is being edited.
    pub settings_edit_buf: Option<String>,
    pub settings_edit_error: Option<String>,
}

/// The machine as last reported, and how it is moved.
#[derive(Debug)]
pub struct Machine {
    /// The latest status report.
    pub grbl_status: Option<GrblStatus>,
    /// Ticks since the last poll.
    pub status_poll_ticks: u32,
    /// Ticks between polls; none are sent if it is zero.
    pub status_poll_interval: u32,
    pub jog_step_idx: usize,
    /// Speed of a jog in mm/min.
    pub jog_feedrate: Real,
    /// Override percentages.
    pub override_feed: u8,
    pub override_rapid: u8,
    pub override_spindle: u8,
}

/// What the controller told of itself.
#[derive(Debug)]
pub struct Controller {
    /// Its settings, by the number in their key.
    pub grbl_settings: Vec<(String, String)>,
    pub settings_list_selected: Option<usize>,
    /// The state of the G-code parser.
    pub gc_state: Option<String>,
    pub last_probe: Option<(Pos3, bool)>,
}

/// The state of the program.
#[derive(Debug)]
pub struct App {
    pub screen: Screen,
    pub ports: Ports,
    /// Console, status line and outgoing commands.
    pub talk: Talk,
    /// The command line.
    pub input: Input,
    pub work: Work,
    pub preview: Preview,
    pub stream: Stream,
    pub panel: LayerPanel,
    /// The edit of the shift of the job, if it is edited.
    pub offset: Option<OffsetEdit>,
    pub config: Config,
    pub machine: Machine,
    pub controller: Controller,
}

/// The layers with one of them drawn in the mode behind its own.
pub open spec fn with_next_mode(v: Seq<Layer>, k: int) -> Seq<Layer> {
    if 0 <= k < v.len() {
        v.update(k, Layer { mode: v[k].mode.following(), ..v[k] })
    } else {
        v
    }
}

/// A selection that can be stepped from.
pub open spec fn steppable(s: Option<usize>) -> bool {
    s matches Some(i) ==> i < usize::MAX
}

impl App {
    /// What holds of the state at all times.
    pub open spec fn wf(self) -> bool {
        &&& self.talk.wf()
        &&& self.input.wf()
        &&& self.ports.selected_baud_idx < self.ports.baud_rates@.len()
        &&& self.machine.jog_step_idx < grbl::JOG_STEPS
        &&& self.ports.mode is Connected <==> !(self.talk.link is Absent)
        &&& steppable(self.ports.port_list_selected)
        &&& steppable(self.controller.settings_list_selected)
        &&& self.panel.layer_selected < usize::MAX
        &&& self.machine.status_poll_ticks < u32::MAX
        &&& orderly(entries(self.controller.grbl_settings@))
    }

    /// The same state with other things said and sent.
    pub open spec fn talking(self, talk: Talk) -> App {
        App { talk, ..self }
    }

    /// The state at the start.
    pub fn new() -> (r: App)
        ensures
            r.wf(),
            r.ports.mode is Disconnected,
            r.screen.active_tab is Connect,
            r.screen.focused is SerialList,
            r.screen.control_focus is Jog,
            r.screen.gcode_focus is GCode,
            r.ports.port_list@.len() == 0,
            r.ports.port_list_selected == Some(0usize),
            r.ports.baud_rates@ == seq![BaudRate::B115200, BaudRate::B56000],
            r.ports.selected_baud_idx == 0,
            !r.screen.baud_dropdown_open,
            r.ports.connected_port is None,
            r.talk@ == (Conversation {
                console: seq![],
                scroll: 0,
                follow: true,
                status: None,
                ttl: None,
                link: LinkState::Absent,
                outbox: seq![],
            }),
            r.input@ == (CommandLine {
                text: seq![],
                at: 0,
                history: seq![],
                recalled: None,
                draft: seq![],
            }),
            r.work.svg_path is None && r.work.gcode_text is None && r.work.gcode_scroll == 0,
            r.work.conversion_status is Idle,
            !r.work.is_image_source && r.work.image_dimensions is None && !r.work.invert_image,
            r.panel.layers@.len() == 0 && r.panel.layer_selected == 0,
            r.panel.layer_edit_field is None && r.panel.layer_edit_buf@.len() == 0,
            r.panel.layer_edit_error is None && r.offset is None,
            !r.preview.has_preview && !r.preview.has_gcode_preview && r.preview.show_travel_lines,
            r.config.machine_settings@ == settings::default_settings(),
            r.config.settings_selected == 0 && r.config.settings_edit_buf is None,
            r.config.settings_edit_error is None,
            r.machine.grbl_status is None,
            r.machine.status_poll_ticks == 0 && r.machine.status_poll_interval == 4,
            r.machine.jog_step_idx == 2,
            r.machine.jog_feedrate == (Real { bits: 0x40a7_7000_0000_0000 }),
            r.machine.override_feed == 100 && r.machine.override_rapid == 100,
            r.machine.override_spindle == 100,
            r.controller.grbl_settings@.len() == 0,
            r.controller.settings_list_selected == Some(0usize),
            r.controller.gc_state is None && r.controller.last_probe is None,
            !r.screen.should_quit && !r.screen.needs_clear && r.work.conversion_error_popup is None,
            !r.stream.is_streaming && r.stream.stream_sent == 0 && r.stream.stream_total == 0,
    {
        let r = App {
            screen: Screen {
                active_tab: ActiveTab::Connect,
                focused: FocusedPane::SerialList,
                control_focus: ControlFocus::Jog,
                gcode_focus: GCodeFocus::GCode,
                baud_dropdown_open: false,
                should_quit: false,
                needs_clear: false,
            },
            ports: Ports {
                port_list: Vec::new(),
                port_list_selected: Some(0),
                baud_rates: vec![BaudRate::B115200, BaudRate::B56000],
                selected_baud_idx: 0,
                mode: AppMode::Disconnected,
                connected_port: None,
            },
            work: Work {
                svg_path: None,
                gcode_text: None,
                gcode_scroll: 0,
                conversion_status: ConversionStatus::Idle,
                is_image_source: false,
                image_dimensions: None,
                invert_image: false,
                conversion_error_popup: None,
            },
            preview: Preview {
                has_preview: false,
                has_gcode_preview: false,
                show_travel_lines: true,
            },
            stream: Stream { is_streaming: false, stream_sent: 0, stream_total: 0 },
            panel: LayerPanel {
                layers: Vec::new(),
                layer_selected: 0,
                layer_edit_field: None,
                layer_edit_buf: String::new(),
                layer_edit_error: None,
            },
            offset: None,
            config: Config {
                machine_settings: MachineSettings::default(),
                settings_selected: 0,
                settings_edit_buf: None,
                settings_edit_error: None,
            },
            machine: Machine {
                grbl_status: None,
                status_poll_ticks: 0,
                status_poll_interval: 4,
                jog_step_idx: 2,
                jog_feedrate: Real { bits: 0x40a7_7000_0000_0000 },
                override_feed: 100,
                override_rapid: 100,
                override_spindle: 100,
            },
            controller: Controller {
                grbl_settings: Vec::new(),
                settings_list_selected: Some(0),
                gc_state: None,
                last_probe: None,
            },
            talk: Talk::new(),
            input: Input::new(),
        };
        proof {
            reveal(orderly);
        }
        assert(r.ports.baud_rates@ == seq![BaudRate::B115200, BaudRate::B56000]);
        r
    }

    // ── Status line and console ───────────────────────────────────────────

    /// Show a status message, for some ticks or until the next one.
    pub fn set_status(&mut self, msg: Message, ttl_ticks: Option<u32>)
        ensures
            *final(self) == old(self).talking(final(self).talk),
            final(self).talk@ == old(self).talk@.announce(msg@, ttl_ticks),
            old(self).wf() ==> final(self).wf(),
    {
        self.talk.set_status(msg, ttl_ticks);
    }

    /// Count one tick for the status message.
    pub fn tick_status(&mut self)
        ensures
            *final(self) == old(self).talking(final(self).talk),
            final(self).talk@ == old(self).talk@.ticked(),
            old(self).wf() ==> final(self).wf(),
    {
        self.talk.tick_status();
    }

    /// Put a line on the console.
    pub fn push_line(&mut self, text: Message, kind: LineKind)
        requires
            old(self).wf(),
        ensures
            final(self).wf(),
            *final(self) == old(self).talking(final(self).talk),
            final(self).talk@ == old(self).talk@.say(kind, text@),
    {
        self.talk.push_line(text, kind);
    }

    /// Put an informational line on the console.
    pub fn push_info(&mut self, text: Message)
        requires
            old(self).wf(),
        ensures
            final(self).wf(),
            *final(self) == old(self).talking(final(self).talk),
            final(self).talk@ == old(self).talk@.inform(text@),
    {
        self.push_line(text, LineKind::Info);
    }

    /// Put an error on the console.
    pub fn push_error(&mut self, text: Message)
        requires
            old(self).wf(),
        ensures
            final(self).wf(),
            *final(self) == old(self).talking(final(self).talk),
            final(self).talk@ == old(self).talk@.complain(text@),
    {
        self.push_line(text, LineKind::Error);
    }

    /// Put a received line on the console.
    pub fn push_received(&mut self, text: Message)
        requires
            old(self).wf(),
        ensures
            final(self).wf(),
            *final(self) == old(self).talking(final(self).talk),
            final(self).talk@ == old(self).talk@.say(LineKind::Received, text@),
    {
        self.push_line(text, LineKind::Received);
    }

    /// Put a sent line on the console.
    pub fn push_sent(&mut self, text: Message)
        requires
            old(self).wf(),
        ensures
            final(self).wf(),
            *final(self) == old(self).talking(final(self).talk),
            final(self).talk@ == old(self).talk@.say(LineKind::Sent, text@),
    {
        self.push_line(text, LineKind::Sent);
    }

    // ── Ports ─────────────────────────────────────────────────────────────

    /// The path of the selected port.
    pub open spec fn chosen_port(self) -> Option<Seq<char>> {
        match self.ports.port_list_selected {
            Some(i) => if i < self.ports.port_list@.len() {
                Some(self.ports.port_list@[i as int]@)
            } else {
                None
            },
            None => None,
        }
    }

    /// The path of the selected port.
    pub fn selected_port(&self) -> (r: Option<String>)
        ensures
            text::opt(r) == self.chosen_port(),
    {
        match self.ports.port_list_selected {
            Some(i) => if i < self.ports.port_list.len() {
                Some(self.ports.port_list[i].clone())
            } else {
                None
            },
            None => None,
        }
    }

    /// The selected baud rate.
    pub fn selected_baud(&self) -> (r: BaudRate)
        requires
            self.ports.selected_baud_idx < self.ports.baud_rates@.len(),
        ensures
            r == self.ports.baud_rates@[self.ports.selected_baud_idx as int],
    {
        self.ports.baud_rates[self.ports.selected_baud_idx]
    }

    /// Select the next port; behind the last comes the first.
    pub fn port_list_next(&mut self)
        requires
            old(self).wf(),
        ensures
            final(self).wf(),
            *final(self) == (
                App {
                    ports: Ports {
                        port_list_selected: stepped(
                            old(self).ports.port_list_selected,
                            old(self).ports.port_list@.len(),
                        ),
                        ..old(self).ports
                    },
                    ..*old(self)
                }
            ),
    {
        if self.ports.port_list.len() == 0 {
            return;
        }
        let i: usize = match self.ports.port_list_selected {
            Some(i) => (i + 1) % self.ports.port_list.len(),
            None => 0,
        };
        self.ports.port_list_selected = Some(i);
    }

    /// Select the previous port; before the first comes the last.
    pub fn port_list_prev(&mut self)
        requires
            old(self).wf(),
        ensures
            final(self).wf(),
            *final(self) == (
                App {
                    ports: Ports {
                        port_list_selected: stepped_back(
                            old(self).ports.port_list_selected,
                            old(self).ports.port_list@.len(),
                        ),
                        ..old(self).ports
                    },
                    ..*old(self)
                }
            ),
    {
        if self.ports.port_list.len() == 0 {
            return;
        }
        let i: usize = match self.ports.port_list_selected {
            Some(i) => if i == 0 {
                self.ports.port_list.len() - 1
            } else {
                i - 1
            },
            None => self.ports.port_list.len() - 1,
        };
        self.ports.port_list_selected = Some(i);
    }

    /// Select the next baud rate; behind the last comes the first.
    pub fn baud_next(&mut self)
        requires
            old(self).wf(),
        ensures
            final(self).wf(),
            *final(self) == (
                App {
                    ports: Ports {
                        selected_baud_idx: behind(
                            old(self).ports.selected_baud_idx,
                            old(self).ports.baud_rates@.len(),
                        ),
                        ..old(self).ports
                    },
                    ..*old(self)
                }
            ),
    {
        let n = self.ports.baud_rates.len();
        self.ports.selected_baud_idx = if self.ports.selected_baud_idx + 1 == n {
            0
        } else {
            self.ports.selected_baud_idx + 1
        };
        proof {
            let i = old(self).ports.selected_baud_idx as int;
            if i + 1 < n {
                vstd::arithmetic::div_mod::lemma_small_mod((i + 1) as nat, n as nat);
            } else {
                vstd::arithmetic::div_mod::lemma_mod_self_0(n as int);
            }
        }
    }

    /// Select the previous baud rate; before the first comes the last.
    pub fn baud_prev(&mut self)
        requires
            old(self).wf(),
        ensures
            final(self).wf(),
            *final(self) == (
                App {
                    ports: Ports {
                        selected_baud_idx: before(
                            old(self).ports.selected_baud_idx,
                            old(self).ports.baud_rates@.len(),
                        ),
                        ..old(self).ports
                    },
                    ..*old(self)
                }
            ),
    {
        let n = self.ports.baud_rates.len();
        self.ports.selected_baud_idx = if self.ports.selected_baud_idx == 0 {
            n - 1
        } else {
            self.ports.selected_baud_idx - 1
        };
    }

    // ── Command line ──────────────────────────────────────────────────────

    /// Insert a character at the cursor.
    pub fn input_insert_char(&mut self, ch: char)
        requires
            old(self).wf(),
        ensures
            final(self).wf(),
            *final(self) == (App { input: final(self).input, ..*old(self) }),
            final(self).input@ == old(self).input@.inserted(ch),
    {
        self.input.insert_char(ch);
    }

    /// Delete the character before the cursor.
    pub fn input_delete_back(&mut self)
        requires
            old(self).wf(),
        ensures
            final(self).wf(),
            *final(self) == (App { input: final(self).input, ..*old(self) }),
            final(self).input@ == old(self).input@.deleted_back(),
    {
        self.input.delete_back();
    }

    /// Delete the character behind the cursor.
    pub fn input_delete_forward(&mut self)
        requires
            old(self).wf(),
        ensures
            final(self).wf(),
            *final(self) == (App { input: final(self).input, ..*old(self) }),
            final(self).input@ == old(self).input@.deleted_forward(),
    {
        self.input.delete_forward();
    }

    /// Move the cursor to the left.
    pub fn input_cursor_left(&mut self)
        requires
            old(self).wf(),
        ensures
            final(self).wf(),
            *final(self) == (App { input: final(self).input, ..*old(self) }),
            final(self).input@ == old(self).input@.moved(if old(self).input@.at > 0 {
                old(self).input@.at - 1
            } else {
                0
            }),
    {
        self.input.cursor_left();
    }

    /// Move the cursor to the right.
    pub fn input_cursor_right(&mut self)
        requires
            old(self).wf(),
        ensures
            final(self).wf(),
            *final(self) == (App { input: final(self).input, ..*old(self) }),
            final(self).input@ == old(self).input@.moved(
                if old(self).input@.at < old(self).input@.text.len() {
                    old(self).input@.at + 1
                } else {
                    old(self).input@.text.len() as int
                },
            ),
    {
        self.input.cursor_right();
    }

    /// Move the cursor to the start.
    pub fn input_cursor_home(&mut self)
        requires
            old(self).wf(),
        ensures
            final(self).wf(),
            *final(self) == (App { input: final(self).input, ..*old(self) }),
            final(self).input@ == old(self).input@.moved(0),
    {
        self.input.cursor_home();
    }

    /// Move the cursor to the end.
    pub fn input_cursor_end(&mut self)
        requires
            old(self).wf(),
        ensures
            final(self).wf(),
            *final(self) == (App { input: final(self).input, ..*old(self) }),
            final(self).input@ == old(self).input@.moved(old(self).input@.text.len() as int),
    {
        self.input.cursor_end();
    }

    /// Enter the command.
    pub fn input_submit(&mut self) -> (r: String)
        requires
            old(self).wf(),
        ensures
            final(self).wf(),
            *final(self) == (App { input: final(self).input, ..*old(self) }),
            r@ == old(self).input@.text,
            final(self).input@ == old(self).input@.submitted(),
    {
        self.input.submit()
    }

    /// Go back in the history.
    pub fn history_up(&mut self)
        requires
            old(self).wf(),
        ensures
            final(self).wf(),
            *final(self) == (App { input: final(self).input, ..*old(self) }),
            final(self).input@ == old(self).input@.recalled_earlier(),
    {
        self.input.history_up();
    }

    /// Go forward in the history.
    pub fn history_down(&mut self)
        requires
            old(self).wf(),
        ensures
            final(self).wf(),
            *final(self) == (App { input: final(self).input, ..*old(self) }),
            final(self).input@ == old(self).input@.recalled_later(),
    {
        self.input.history_down();
    }

    // ── Console scrolling ─────────────────────────────────────────────────

    /// Scroll the console up by one line.
    pub fn console_scroll_up(&mut self)
        requires
            old(self).wf(),
        ensures
            final(self).wf(),
            *final(self) == old(self).talking(final(self).talk),
            final(self).talk@ == scrolled_up(old(self).talk@, 1),
    {
        self.talk.scroll_up(1);
    }

    /// Scroll the console down by one line; at its end, follow it.
    pub fn console_scroll_down(&mut self)
        requires
            old(self).wf(),
        ensures
            final(self).wf(),
            *final(self) == old(self).talking(final(self).talk),
            final(self).talk@ == (if old(self).talk@.scroll == 0 {
                Conversation { follow: true, ..old(self).talk@ }
            } else {
                Conversation { scroll: (old(self).talk@.scroll - 1) as u16, ..old(self).talk@ }
            }),
    {
        self.talk.scroll_down();
    }

    /// Scroll the console up by a page.
    pub fn console_scroll_page_up(&mut self, page: u16)
        requires
            old(self).wf(),
        ensures
            final(self).wf(),
            *final(self) == old(self).talking(final(self).talk),
            final(self).talk@ == scrolled_up(old(self).talk@, page),
    {
        self.talk.scroll_up(page);
    }

    /// Scroll the console down by a page; on reaching its end, follow it.
    pub fn console_scroll_page_down(&mut self, page: u16)
        requires
            old(self).wf(),
        ensures
            final(self).wf(),
            *final(self) == old(self).talking(final(self).talk),
            final(self).talk@ == scrolled_down(old(self).talk@, page),
    {
        self.talk.scroll_page_down(page);
    }

    /// Go to the end of the console and follow it.
    pub fn console_scroll_to_bottom(&mut self)
        requires
            old(self).wf(),
        ensures
            final(self).wf(),
            *final(self) == old(self).talking(final(self).talk),
            final(self).talk@ == (Conversation { scroll: 0, follow: true, ..old(self).talk@ }),
    {
        self.talk.scroll_to_bottom();
    }

    /// Go to the start of the console.
    pub fn console_scroll_to_top(&mut self)
        requires
            old(self).wf(),
        ensures
            final(self).wf(),
            *final(self) == old(self).talking(final(self).talk),
            final(self).talk@ == (Conversation {
                scroll: old(self).talk@.console.len() as u16,
                follow: false,
                ..old(self).talk@
            }),
    {
        self.talk.scroll_to_top();
    }

    // ── Layers ────────────────────────────────────────────────────────────

    /// The state with no override being edited.
    pub open spec fn not_editing_layer(self, buf: String) -> App {
        App {
            panel: LayerPanel {
                layer_edit_field: None,
                layer_edit_buf: buf,
                layer_edit_error: None,
                ..self.panel
            },
            ..self
        }
    }

    fn leave_layer_edit(&mut self)
        ensures
            *final(self) == old(self).not_editing_layer(final(self).panel.layer_edit_buf),
            final(self).panel.layer_edit_buf@.len() == 0,
            old(self).wf() ==> final(self).wf(),
    {
        self.panel.layer_edit_field = None;
        self.panel.layer_edit_buf = String::new();
        self.panel.layer_edit_error = None;
    }

    /// Take over the layers that were found in a drawing, or none if it could
    /// not be read.
    pub fn load_layers_from_svg(&mut self, found: Option<Vec<SvgLayerInfo>>)
        requires
            old(self).wf(),
        ensures
            final(self).wf(),
            match found {
                None => *final(self) == (
                    App {
                        panel: LayerPanel { layers: final(self).panel.layers, ..old(self).panel },
                        ..*old(self)
                    }
                )
                    && final(self).panel.layers@.len() == 0,
                Some(v) => {
                    &&& *final(self) == (
                        App {
                            panel: LayerPanel {
                                layers: final(self).panel.layers,
                                layer_selected: 0,
                                ..old(self).not_editing_layer(
                                    final(self).panel.layer_edit_buf,
                                ).panel
                            },
                            ..old(self).not_editing_layer(final(self).panel.layer_edit_buf)
                        }
                    )
                    &&& final(self).panel.layer_edit_buf@.len() == 0
                    &&& layers::layers(final(self).panel.layers@) == v@.map_values(
                        |info: SvgLayerInfo|
                            layers::layer_of(
                                info,
                                old(self).config.machine_settings.max_speed,
                                old(self).config.machine_settings.max_laser_power,
                            ),
                    )
                },
            },
    {
        let infos = match found {
            None => {
                self.panel.layers = Vec::new();
                return;
            },
            Some(v) => v,
        };
        let max_feedrate = self.config.machine_settings.max_speed;
        let max_power = self.config.machine_settings.max_laser_power;
        let mut loaded: Vec<TuiLayerSettings> = Vec::new();
        let mut i: usize = 0;
        while i < infos.len()
            invariant
                i <= infos@.len(),
                loaded@.len() == i,
                forall|k: int|
                    0 <= k < i ==> (#[trigger] loaded@[k])@ == layers::layer_of(
                        infos@[k],
                        max_feedrate,
                        max_power,
                    ),
            decreases infos@.len() - i,
        {
            loaded.push(TuiLayerSettings::from_svg_layer(&infos[i], max_feedrate, max_power));
            i = i + 1;
        }
        self.panel.layers = loaded;
        self.panel.layer_selected = 0;
        self.leave_layer_edit();
        assert(layers::layers(self.panel.layers@) == infos@.map_values(
            |info: SvgLayerInfo| layers::layer_of(info, max_feedrate, max_power),
        ));
    }

    /// The overrides of the layers, for the conversion.
    pub fn layer_override_map(&self) -> (r: Vec<(String, LayerOverrideOptions)>)
        ensures
            layers::keys_differ(r@),
            layers::as_map(r@) == layers::override_map(layers::layers(self.panel.layers@)),
    {
        layers::layer_override_map(&self.panel.layers)
    }

    /// Select the next layer; behind the last comes the first.
    pub fn layer_next(&mut self)
        requires
            old(self).wf(),
        ensures
            final(self).wf(),
            old(self).panel.layers@.len() == 0 ==> *final(self) == *old(self),
            old(self).panel.layers@.len() > 0 ==> *final(self) == (
                App {
                    panel: LayerPanel {
                        layer_selected: behind(
                            old(self).panel.layer_selected,
                            old(self).panel.layers@.len(),
                        ),
                        ..old(self).not_editing_layer(final(self).panel.layer_edit_buf).panel
                    },
                    ..old(self).not_editing_layer(final(self).panel.layer_edit_buf)
                }
            ) && final(self).panel.layer_edit_buf@.len() == 0,
    {
        if self.panel.layers.len() > 0 {
            self.panel.layer_selected = (self.panel.layer_selected + 1) % self.panel.layers.len();
            self.leave_layer_edit();
        }
    }

    /// Select the previous layer; before the first comes the last.
    pub fn layer_prev(&mut self)
        requires
            old(self).wf(),
        ensures
            final(self).wf(),
            old(self).panel.layers@.len() == 0 ==> *final(self) == *old(self),
            old(self).panel.layers@.len() > 0 ==> *final(self) == (
                App {
                    panel: LayerPanel {
                        layer_selected: before(
                            old(self).panel.layer_selected,
                            old(self).panel.layers@.len(),
                        ),
                        ..old(self).not_editing_layer(final(self).panel.layer_edit_buf).panel
                    },
                    ..old(self).not_editing_layer(final(self).panel.layer_edit_buf)
                }
            ) && final(self).panel.layer_edit_buf@.len() == 0,
    {
        if self.panel.layers.len() > 0 {
            self.panel.layer_selected = if self.panel.layer_selected == 0 {
                self.panel.layers.len() - 1
            } else {
                self.panel.layer_selected - 1
            };
            self.leave_layer_edit();
        }
    }

    /// The value that an edit of an override starts from; nothing where there is
    /// no such layer or override.
    pub fn layer_edit_value(&self, field: usize) -> (r: Option<Message>)
        ensures
            layers::shown(r) == (if self.panel.layer_selected < self.panel.layers@.len() {
                self.panel.layers@[self.panel.layer_selected as int]@.field(field as int)
            } else {
                None
            }),
    {
        if self.panel.layer_selected < self.panel.layers.len() {
            self.panel.layers[self.panel.layer_selected].field_value(field)
        } else {
            None
        }
    }

    /// Begin to edit an override of the selected layer, starting from its value
    /// as a text; a field that does not exist cannot be edited.
    pub fn layer_begin_edit(&mut self, field: usize, value: String)
        requires
            old(self).wf(),
        ensures
            final(self).wf(),
            *final(self) == (if old(self).panel.layer_selected < old(self).panel.layers@.len()
                && field <= 2 {
                App {
                    panel: LayerPanel {
                        layer_edit_field: Some(field),
                        layer_edit_buf: value,
                        layer_edit_error: None,
                        ..old(self).panel
                    },
                    ..*old(self)
                }
            } else {
                *old(self)
            }),
    {
        if self.panel.layer_selected < self.panel.layers.len() && field <= 2 {
            self.panel.layer_edit_field = Some(field);
            self.panel.layer_edit_buf = value;
            self.panel.layer_edit_error = None;
        }
    }

    /// What entering the edited text would do to the selected layer.
    pub open spec fn layer_entry(self, field: usize, number: Option<Real>) -> (
        Layer,
        Option<Seq<crate::message::Glyph>>,
    ) {
        layers::entered(
            self.panel.layers@[self.panel.layer_selected as int]@,
            field as int,
            self.panel.layer_edit_buf@,
            number,
            self.config.machine_settings.max_speed,
            self.config.machine_settings.max_laser_power,
        )
    }

    /// Enter the edited text into the selected layer.  `number` is what reading
    /// the trimmed text as a number gave.  A refused text stays in the edit, with
    /// the complaint.
    pub fn layer_commit_edit(&mut self, number: Option<Real>) -> (r: bool)
        requires
            old(self).wf(),
        ensures
            final(self).wf(),
            old(self).panel.layer_edit_field is None ==> r && *final(self) == *old(self),
            old(self).panel.layer_edit_field matches Some(field) ==> {
                let k = old(self).panel.layer_selected as int;
                if k < old(self).panel.layers@.len() {
                    let (layer, complaint) = old(self).layer_entry(field, number);
                    &&& r == (complaint is None)
                    &&& layers::layers(final(self).panel.layers@) == layers::layers(
                        old(self).panel.layers@,
                    ).update(k, layer)
                    &&& r ==> *final(self) == (
                        App {
                            panel: LayerPanel {
                                layers: final(self).panel.layers,
                                ..old(self).not_editing_layer(
                                    final(self).panel.layer_edit_buf,
                                ).panel
                            },
                            ..old(self).not_editing_layer(final(self).panel.layer_edit_buf)
                        }
                    ) && final(self).panel.layer_edit_buf@.len() == 0
                    &&& !r ==> *final(self) == (
                        App {
                            panel: LayerPanel {
                                layers: final(self).panel.layers,
                                layer_edit_error: final(self).panel.layer_edit_error,
                                ..old(self).panel
                            },
                            ..*old(self)
                        }
                    ) && layers::shown(
                        final(self).panel.layer_edit_error,
                    ) == complaint
                } else {
                    &&& r
                    &&& *final(self) == old(self).not_editing_layer(
                        final(self).panel.layer_edit_buf,
                    )
                    &&& final(self).panel.layer_edit_buf@.len() == 0
                }
            },
    {
        let field = match self.panel.layer_edit_field {
            None => {
                return true;
            },
            Some(f) => f,
        };
        let k = self.panel.layer_selected;
        if k < self.panel.layers.len() {
            let ghost before = self.panel.layers@;
            let mut layer = TuiLayerSettings {
                label: self.panel.layers[k].label.clone(),
                key: self.panel.layers[k].key.clone(),
                feedrate: self.panel.layers[k].feedrate,
                power: self.panel.layers[k].power,
                passes: self.panel.layers[k].passes,
                mode: self.panel.layers[k].mode,
                svg_feedrate: self.panel.layers[k].svg_feedrate,
                svg_power: self.panel.layers[k].svg_power,
                svg_passes: self.panel.layers[k].svg_passes,
            };
            assert(layer@ == before[k as int]@);
            let verdict = layer.set_field(
                field,
                self.panel.layer_edit_buf.as_str(),
                number,
                self.config.machine_settings.max_speed,
                self.config.machine_settings.max_laser_power,
            );
            let ghost after = layer@;
            self.panel.layers.set(k, layer);
            assert(
                layers::layers(self.panel.layers@) == layers::layers(before).update(k as int, after)
            );
            match verdict {
                Ok(()) => {},
                Err(e) => {
                    self.panel.layer_edit_error = Some(e);
                    return false;
                },
            }
        }
        self.leave_layer_edit();
        true
    }

    /// Leave the edit of an override without entering anything.
    pub fn layer_cancel_edit(&mut self)
        requires
            old(self).wf(),
        ensures
            final(self).wf(),
            *final(self) == old(self).not_editing_layer(final(self).panel.layer_edit_buf),
            final(self).panel.layer_edit_buf@.len() == 0,
    {
        self.leave_layer_edit();
    }

    /// Draw the selected layer in the mode behind its own.
    pub fn layer_cycle_mode(&mut self)
        requires
            old(self).wf(),
        ensures
            final(self).wf(),
            *final(self) == (
                App {
                    panel: LayerPanel { layers: final(self).panel.layers, ..old(self).panel },
                    ..*old(self)
                }
            ),
            layers::layers(final(self).panel.layers@) == with_next_mode(
                layers::layers(old(self).panel.layers@),
                old(self).panel.layer_selected as int,
            ),
    {
        let k = self.panel.layer_selected;
        if k < self.panel.layers.len() {
            let l = &self.panel.layers[k];
            let layer = TuiLayerSettings {
                label: l.label.clone(),
                key: l.key.clone(),
                feedrate: l.feedrate,
                power: l.power,
                passes: l.passes,
                mode: l.mode.next(),
                svg_feedrate: l.svg_feedrate,
                svg_power: l.svg_power,
                svg_passes: l.svg_passes,
            };
            let ghost before = self.panel.layers@;
            let ghost after = layer@;
            self.panel.layers.set(k, layer);
            assert(
                layers::layers(self.panel.layers@) == layers::layers(before).update(k as int, after)
            );
        }
    }

    /// Set all overrides of all layers back to the values of the drawing.
    pub fn layer_clear_all(&mut self)
        requires
            old(self).wf(),
        ensures
            final(self).wf(),
            *final(self) == (
                App {
                    panel: LayerPanel {
                        layers: final(self).panel.layers,
                        ..old(self).not_editing_layer(final(self).panel.layer_edit_buf).panel
                    },
                    ..old(self).not_editing_layer(final(self).panel.layer_edit_buf)
                }
            ),
            final(self).panel.layer_edit_buf@.len() == 0,
            layers::layers(final(self).panel.layers@) == layers::layers(old(self).panel.layers@).map_values(
                |l: Layer| l.cleared(),
            ),
    {
        let mut i: usize = 0;
        let mut cleared: Vec<TuiLayerSettings> = Vec::new();
        while i < self.panel.layers.len()
            invariant
                i <= self.panel.layers@.len(),
                cleared@.len() == i,
                *self == *old(self),
                forall|k: int|
                    0 <= k < i ==> (#[trigger] cleared@[k])@ == self.panel.layers@[k]@.cleared(),
            decreases self.panel.layers@.len() - i,
        {
            let l = &self.panel.layers[i];
            cleared.push(
                TuiLayerSettings {
                    label: l.label.clone(),
                    key: l.key.clone(),
                    feedrate: l.svg_feedrate,
                    power: l.svg_power,
                    passes: l.svg_passes,
                    mode: LayerMode::Default,
                    svg_feedrate: l.svg_feedrate,
                    svg_power: l.svg_power,
                    svg_passes: l.svg_passes,
                },
            );
            i = i + 1;
        }
        let ghost before = self.panel.layers@;
        self.panel.layers = cleared;
        self.leave_layer_edit();
        assert(layers::layers(self.panel.layers@) == layers::layers(before).map_values(
            |l: Layer| l.cleared(),
        ));
    }

    // ── The shift of the job ──────────────────────────────────────────────

    /// Begin to edit the shift along an axis, starting from its value as a text.
    pub fn begin_offset_edit(&mut self, axis: Axis, value: String)
        requires
            old(self).wf(),
        ensures
            final(self).wf(),
            *final(self) == (
                App {
                    offset: Some(OffsetEdit { axis, text: value, complaint: None }),
                    ..*old(self)
                }
            ),
    {
        self.offset = Some(OffsetEdit { axis, text: value, complaint: None });
    }

    /// Leave the edit of the shift without entering anything.
    pub fn cancel_offset_edit(&mut self)
        requires
            old(self).wf(),
        ensures
            final(self).wf(),
            *final(self) == (App { offset: None, ..*old(self) }),
    {
        self.offset = None;
    }

    /// Enter the edited text as the shift along its axis.  `number` is what
    /// reading the trimmed text as a number gave.  A refused text stays in the
    /// edit, with the complaint.
    pub fn commit_offset_edit(&mut self, number: Result<Real, String>) -> (r: bool)
        requires
            old(self).wf(),
        ensures
            final(self).wf(),
            old(self).offset is None ==> r && *final(self) == *old(self),
            old(self).offset matches Some(edit) ==> {
                let (entered, complaint) = settings::entered(
                    old(self).config.machine_settings@,
                    edit.axis.field() as int,
                    edit.text@,
                    settings::reading(number),
                );
                &&& r == (complaint is None)
                &&& *final(self) == (
                    App {
                        offset: final(self).offset,
                        config: Config {
                            machine_settings: final(self).config.machine_settings,
                            ..old(self).config
                        },
                        ..*old(self)
                    }
                )
                &&& final(self).config.machine_settings@ == entered
                &&& r ==> final(self).offset is None
                &&& !r ==> {
                    &&& final(self).offset matches Some(kept)
                    &&& kept.axis == edit.axis && kept.text == edit.text
                    &&& text::opt(kept.complaint) == complaint
                }
            },
    {
        match self.offset.take() {
            None => true,
            Some(mut edit) => {
                let i: usize = match edit.axis {
                    Axis::X => settings::ORIGIN_X,
                    Axis::Y => settings::ORIGIN_Y,
                };
                match self.config.machine_settings.set_field(i, edit.text.as_str(), number) {
                    Ok(()) => true,
                    Err(e) => {
                        edit.complaint = Some(e);
                        self.offset = Some(edit);
                        false
                    },
                }
            },
        }
    }

    // ── The G-code text ───────────────────────────────────────────────────

    /// The number of lines of the G-code text.
    pub open spec fn line_count(self) -> nat {
        match self.work.gcode_text {
            Some(t) => text::lines(t@).len(),
            None => 0,
        }
    }

    /// The last line of the G-code text.
    pub open spec fn last_line(self) -> int {
        if self.line_count() == 0 {
            0
        } else {
            self.line_count() - 1
        }
    }

    /// The number of lines of the G-code text.
    pub fn gcode_line_count(&self) -> (r: usize)
        ensures
            r == self.line_count(),
    {
        match &self.work.gcode_text {
            Some(t) => {
                let lines = text::lines_of(t.as_str());
                assert(text::texts(lines@).len() == lines@.len());
                lines.len()
            },
            None => 0,
        }
    }

    /// Scroll the G-code text up by one line.
    pub fn gcode_scroll_up(&mut self)
        requires
            old(self).wf(),
        ensures
            final(self).wf(),
            *final(self) == (
                App {
                    work: Work {
                        gcode_scroll: if old(self).work.gcode_scroll == 0 {
                            0
                        } else {
                            (old(self).work.gcode_scroll - 1) as usize
                        },
                        ..old(self).work
                    },
                    ..*old(self)
                }
            ),
    {
        self.work.gcode_scroll = self.work.gcode_scroll.saturating_sub(1);
    }

    /// Scroll the G-code text down by one line, at most to the last.
    pub fn gcode_scroll_down(&mut self)
        requires
            old(self).wf(),
        ensures
            final(self).wf(),
            *final(self) == (
                App {
                    work: Work {
                        gcode_scroll: if old(self).work.gcode_scroll < old(self).last_line() {
                            (old(self).work.gcode_scroll + 1) as usize
                        } else {
                            old(self).work.gcode_scroll
                        },
                        ..old(self).work
                    },
                    ..*old(self)
                }
            ),
    {
        let max: usize = self.gcode_line_count().saturating_sub(1);
        if self.work.gcode_scroll < max {
            self.work.gcode_scroll = self.work.gcode_scroll + 1;
        }
    }

    /// Scroll the G-code text up by a page.
    pub fn gcode_scroll_page_up(&mut self, page: usize)
        requires
            old(self).wf(),
        ensures
            final(self).wf(),
            *final(self) == (
                App {
                    work: Work {
                        gcode_scroll: if old(self).work.gcode_scroll <= page {
                            0
                        } else {
                            (old(self).work.gcode_scroll - page) as usize
                        },
                        ..old(self).work
                    },
                    ..*old(self)
                }
            ),
    {
        self.work.gcode_scroll = self.work.gcode_scroll.saturating_sub(page);
    }

    /// Scroll the G-code text down by a page, at most to the last line.
    pub fn gcode_scroll_page_down(&mut self, page: usize)
        requires
            old(self).wf(),
        ensures
            final(self).wf(),
            *final(self) == (
                App {
                    work: Work {
                        gcode_scroll: if old(self).work.gcode_scroll + page < old(self).last_line() {
                            (old(self).work.gcode_scroll + page) as usize
                        } else {
                            old(self).last_line() as usize
                        },
                        ..old(self).work
                    },
                    ..*old(self)
                }
            ),
    {
        let max: usize = self.gcode_line_count().saturating_sub(1);
        let to: usize = self.work.gcode_scroll.saturating_add(page);
        self.work.gcode_scroll = if to < max {
            to
        } else {
            max
        };
    }

    /// Go to the first line of the G-code text.
    pub fn gcode_scroll_top(&mut self)
        requires
            old(self).wf(),
        ensures
            final(self).wf(),
            *final(self) == (
                App { work: Work { gcode_scroll: 0, ..old(self).work }, ..*old(self) }
            ),
    {
        self.work.gcode_scroll = 0;
    }

    /// Go to the last line of the G-code text.
    pub fn gcode_scroll_bottom(&mut self)
        requires
            old(self).wf(),
        ensures
            final(self).wf(),
            *final(self) == (
                App {
                    work: Work { gcode_scroll: old(self).last_line() as usize, ..old(self).work },
                    ..*old(self)
                }
            ),
    {
        self.work.gcode_scroll = self.gcode_line_count().saturating_sub(1);
    }

    // ── Jogging ───────────────────────────────────────────────────────────

    /// The step of a jog in mm.
    pub fn jog_step_mm(&self) -> (r: Real)
        requires
            self.machine.jog_step_idx < grbl::JOG_STEPS,
        ensures
            r == grbl::jog_step(self.machine.jog_step_idx as int),
    {
        grbl::jog_step_at(self.machine.jog_step_idx)
    }

    /// Take the next larger step, if there is one.
    pub fn jog_step_larger(&mut self)
        requires
            old(self).wf(),
        ensures
            final(self).wf(),
            *final(self) == (
                App {
                    machine: Machine {
                        jog_step_idx: if old(self).machine.jog_step_idx + 1 < grbl::JOG_STEPS {
                            (old(self).machine.jog_step_idx + 1) as usize
                        } else {
                            old(self).machine.jog_step_idx
                        },
                        ..old(self).machine
                    },
                    ..*old(self)
                }
            ),
    {
        if self.machine.jog_step_idx + 1 < grbl::JOG_STEPS {
            self.machine.jog_step_idx = self.machine.jog_step_idx + 1;
        }
    }

    /// Take the next smaller step, if there is one.
    pub fn jog_step_smaller(&mut self)
        requires
            old(self).wf(),
        ensures
            final(self).wf(),
            *final(self) == (
                App {
                    machine: Machine {
                        jog_step_idx: if old(self).machine.jog_step_idx > 0 {
                            (old(self).machine.jog_step_idx - 1) as usize
                        } else {
                            0
                        },
                        ..old(self).machine
                    },
                    ..*old(self)
                }
            ),
    {
        if self.machine.jog_step_idx > 0 {
            self.machine.jog_step_idx = self.machine.jog_step_idx - 1;
        }
    }

    // ── The settings of the controller ────────────────────────────────────

    /// Note a setting of the controller: a known key gets the value, a new one
    /// is put where its number belongs.
    pub fn upsert_setting(&mut self, key: String, value: String)
        requires
            old(self).wf(),
        ensures
            final(self).wf(),
            *final(self) == (
                App {
                    controller: Controller {
                        grbl_settings: final(self).controller.grbl_settings,
                        ..old(self).controller
                    },
                    ..*old(self)
                }
            ),
            entries(final(self).controller.grbl_settings@) == upserted(
                entries(old(self).controller.grbl_settings@),
                key@,
                value@,
            ),
    {
        upsert(&mut self.controller.grbl_settings, key, value);
    }

    /// Select the next setting of the controller; behind the last comes the
    /// first.
    pub fn settings_next(&mut self)
        requires
            old(self).wf(),
        ensures
            final(self).wf(),
            old(self).controller.grbl_settings@.len() == 0 ==> *final(self) == *old(self),
            old(self).controller.grbl_settings@.len() > 0 ==> *final(self) == (
                App {
                    controller: Controller {
                        settings_list_selected: stepped(
                            Some(chosen_or_first(old(self).controller.settings_list_selected)),
                            old(self).controller.grbl_settings@.len(),
                        ),
                        ..old(self).controller
                    },
                    ..*old(self)
                }
            ),
    {
        let len = self.controller.grbl_settings.len();
        if len == 0 {
            return;
        }
        let i: usize = match self.controller.settings_list_selected {
            Some(i) => i,
            None => 0,
        };
        let to: usize = (i + 1) % len;
        self.controller.settings_list_selected = Some(to);
    }

    /// Select the previous setting of the controller; before the first comes the
    /// last.
    pub fn settings_prev(&mut self)
        requires
            old(self).wf(),
        ensures
            final(self).wf(),
            old(self).controller.grbl_settings@.len() == 0 ==> *final(self) == *old(self),
            old(self).controller.grbl_settings@.len() > 0 ==> *final(self) == (
                App {
                    controller: Controller {
                        settings_list_selected: stepped_back(
                            Some(chosen_or_first(old(self).controller.settings_list_selected)),
                            old(self).controller.grbl_settings@.len(),
                        ),
                        ..old(self).controller
                    },
                    ..*old(self)
                }
            ),
    {
        let len = self.controller.grbl_settings.len();
        if len == 0 {
            return;
        }
        let i: usize = match self.controller.settings_list_selected {
            Some(i) => i,
            None => 0,
        };
        let to: usize = if i == 0 {
            len - 1
        } else {
            i - 1
        };
        self.controller.settings_list_selected = Some(to);
    }

    // ── The popup ─────────────────────────────────────────────────────────

    /// Show a popup about a failed conversion.
    pub fn show_conversion_error(&mut self, title: String, body: Message)
        requires
            old(self).wf(),
        ensures
            final(self).wf(),
            *final(self) == (
                App {
                    work: Work {
                        conversion_error_popup: Some(ConversionErrorPopup { title, body }),
                        ..old(self).work
                    },
                    ..*old(self)
                }
            ),
    {
        self.work.conversion_error_popup = Some(ConversionErrorPopup { title, body });
    }

    /// Take the popup away.
    pub fn dismiss_conversion_error(&mut self)
        requires
            old(self).wf(),
        ensures
            final(self).wf(),
            *final(self) == (
                App { work: Work { conversion_error_popup: None, ..old(self).work }, ..*old(self) }
            ),
    {
        self.work.conversion_error_popup = None;
    }

    // ── The settings tab ──────────────────────────────────────────────────

    /// Select the next field, if there is one.
    pub fn settings_tab_next(&mut self)
        requires
            old(self).wf(),
        ensures
            final(self).wf(),
            *final(self) == (
                App {
                    config: Config {
                        settings_selected: if old(self).config.settings_selected < settings::FIELD_COUNT - 1 {
                            (old(self).config.settings_selected + 1) as usize
                        } else {
                            old(self).config.settings_selected
                        },
                        ..old(self).config
                    },
                    ..*old(self)
                }
            ),
    {
        if self.config.settings_selected < settings::FIELD_COUNT - 1 {
            self.config.settings_selected = self.config.settings_selected + 1;
        }
    }

    /// Select the previous field, if there is one.
    pub fn settings_tab_prev(&mut self)
        requires
            old(self).wf(),
        ensures
            final(self).wf(),
            *final(self) == (
                App {
                    config: Config {
                        settings_selected: if old(self).config.settings_selected > 0 {
                            (old(self).config.settings_selected - 1) as usize
                        } else {
                            0
                        },
                        ..old(self).config
                    },
                    ..*old(self)
                }
            ),
    {
        if self.config.settings_selected > 0 {
            self.config.settings_selected = self.config.settings_selected - 1;
        }
    }

    /// Begin to edit the selected field, starting from its value as a text.
    pub fn settings_begin_edit(&mut self, value: String)
        requires
            old(self).wf(),
        ensures
            final(self).wf(),
            *final(self) == (
                App {
                    config: Config {
                        settings_edit_buf: Some(value),
                        settings_edit_error: None,
                        ..old(self).config
                    },
                    ..*old(self)
                }
            ),
    {
        self.config.settings_edit_buf = Some(value);
        self.config.settings_edit_error = None;
    }

    /// Enter the edited text into the selected field.  `number` is what reading
    /// the trimmed text as a number gave.  A refused text stays in the edit, with
    /// the complaint.
    pub fn settings_commit_edit(&mut self, number: Result<Real, String>) -> (r: bool)
        requires
            old(self).wf(),
        ensures
            final(self).wf(),
            old(self).config.settings_edit_buf is None ==> r && *final(self) == *old(self),
            old(self).config.settings_edit_buf matches Some(buf) ==> {
                let (s, complaint) = settings::entered(
                    old(self).config.machine_settings@,
                    old(self).config.settings_selected as int,
                    buf@,
                    settings::reading(number),
                );
                &&& r == (complaint is None)
                &&& final(self).config.machine_settings@ == s
                &&& r ==> *final(self) == (
                    App {
                        config: Config {
                            machine_settings: final(self).config.machine_settings,
                            settings_edit_buf: None,
                            settings_edit_error: None,
                            ..old(self).config
                        },
                        ..*old(self)
                    }
                )
                &&& !r ==> *final(self) == (
                    App {
                        config: Config {
                            machine_settings: final(self).config.machine_settings,
                            settings_edit_error: final(self).config.settings_edit_error,
                            ..old(self).config
                        },
                        ..*old(self)
                    }
                ) && text::opt(
                    final(self).config.settings_edit_error,
                ) == complaint
            },
    {
        match self.config.settings_edit_buf.take() {
            None => true,
            Some(buf) => {
                let i: usize = self.config.settings_selected;
                match self.config.machine_settings.set_field(i, buf.as_str(), number) {
                    Ok(()) => {
                        self.config.settings_edit_error = None;
                        true
                    },
                    Err(e) => {
                        self.config.settings_edit_buf = Some(buf);
                        self.config.settings_edit_error = Some(e);
                        false
                    },
                }
            },
        }
    }

    /// Leave the edit of a field without entering anything.
    pub fn settings_cancel_edit(&mut self)
        requires
            old(self).wf(),
        ensures
            final(self).wf(),
            *final(self) == (
                App {
                    config: Config {
                        settings_edit_buf: None,
                        settings_edit_error: None,
                        ..old(self).config
                    },
                    ..*old(self)
                }
            ),
    {
        self.config.settings_edit_buf = None;
        self.config.settings_edit_error = None;
    }

    /// Whether the selected field is a switch that is on.
    pub open spec fn switch_is_on(self) -> bool {
        let i = self.config.settings_selected;
        let s = self.config.machine_settings;
        (i == 12 && s.circular_interpolation) || (i == 13 && s.line_numbers) || (i == 14
            && s.checksums)
    }

    /// Turn the selected field round, if it is a switch.
    pub fn settings_toggle_bool(&mut self)
        requires
            old(self).wf(),
        ensures
            final(self).wf(),
            *final(self) == (
                App {
                    config: Config {
                        machine_settings: final(self).config.machine_settings,
                        ..old(self).config
                    },
                    ..*old(self)
                }
            ),
            final(self).config.machine_settings@ == (if settings::FIRST_SWITCH
                <= old(self).config.settings_selected < settings::FIELD_COUNT {
                old(self).config.machine_settings@.with_switch(
                    old(self).config.settings_selected as int,
                    !old(self).switch_is_on(),
                )
            } else {
                old(self).config.machine_settings@
            }),
    {
        let idx = self.config.settings_selected;
        if idx >= settings::FIRST_SWITCH {
            let on = if idx == 12 {
                self.config.machine_settings.circular_interpolation
            } else if idx == 13 {
                self.config.machine_settings.line_numbers
            } else if idx == 14 {
                self.config.machine_settings.checksums
            } else {
                false
            };
            let toggled = if on {
                "false"
            } else {
                "true"
            };
            proof {
                settings::shown_switch_is_kept(self.config.machine_settings@, 12, !on);
            }
            let none: Result<Real, String> = Err(String::new());
            let _ = self.config.machine_settings.set_field(idx, toggled, none);
        }
    }
}

/// The console scrolled up.
pub open spec fn scrolled_up(c: Conversation, lines: u16) -> Conversation {
    Conversation {
        follow: false,
        scroll: if c.scroll + lines > u16::MAX {
            u16::MAX
        } else {
            (c.scroll + lines) as u16
        },
        ..c
    }
}

/// The console scrolled down by a page.
pub open spec fn scrolled_down(c: Conversation, page: u16) -> Conversation {
    if c.scroll <= page {
        Conversation { scroll: 0, follow: true, ..c }
    } else {
        Conversation { scroll: (c.scroll - page) as u16, ..c }
    }
}

/// The selection, or the first if there is none.
pub open spec fn chosen_or_first(s: Option<usize>) -> usize {
    match s {
        Some(i) => i,
        None => 0,
    }
}

/// The position behind `i` in a ring of `n`.
pub open spec fn behind(i: usize, n: nat) -> usize {
    ((i + 1) as int % n as int) as usize
}

/// The position before `i` in a ring of `n`.
pub open spec fn before(i: usize, n: nat) -> usize {
    if i == 0 {
        (n - 1) as usize
    } else {
        (i - 1) as usize
    }
}

/// The next selection in a ring of `n`.
pub open spec fn stepped(s: Option<usize>, n: nat) -> Option<usize> {
    if n == 0 {
        s
    } else {
        Some(
            match s {
                Some(i) => behind(i, n),
                None => 0,
            },
        )
    }
}

/// The previous selection in a ring of `n`.
pub open spec fn stepped_back(s: Option<usize>, n: nat) -> Option<usize> {
    if n == 0 {
        s
    } else {
        Some(
            match s {
                Some(i) => before(i, n),
                None => (n - 1) as usize,
            },
        )
    }
}

/// Going to the next selection and back is standing still.
pub proof fn selection_steps_undo(i: usize, n: nat)
    requires
        i < n <= usize::MAX,
    ensures
        stepped_back(stepped(Some(i), n), n) == Some(i),
        stepped(stepped_back(Some(i), n), n) == Some(i),
{
    if i + 1 < n {
        vstd::arithmetic::div_mod::lemma_small_mod((i + 1) as nat, n);
    } else {
        vstd::arithmetic::div_mod::lemma_mod_self_0(n as int);
    }
    vstd::arithmetic::div_mod::lemma_small_mod(i as nat, n);
    if i == 0 {
        vstd::arithmetic::div_mod::lemma_mod_self_0(n as int);
    }
}

// ── Settings by number ────────────────────────────────────────────────────────

/// The entries of a list, by their characters.
pub open spec fn entries(v: Seq<(String, String)>) -> Seq<(Seq<char>, Seq<char>)> {
    v.map_values(|e: (String, String)| (e.0@, e.1@))
}

/// `s` without the dollar signs in front.
pub open spec fn without_dollars(s: Seq<char>) -> Seq<char>
    decreases s.len(),
{
    if s.len() > 0 && s[0] == '$' {
        without_dollars(s.skip(1))
    } else {
        s
    }
}

/// The number in a key; keys without one come last.
pub open spec fn rank(key: Seq<char>) -> int {
    match text::integer_i64(without_dollars(key)) {
        Some(n) => n,
        None => i64::MAX as int,
    }
}

/// The entries are in the order of their numbers.
pub open spec fn by_rank(v: Seq<(Seq<char>, Seq<char>)>) -> bool {
    forall|i: int, j: int|
        0 <= i <= j < v.len() ==> rank((#[trigger] v[i]).0) <= rank((#[trigger] v[j]).0)
}

/// No key occurs twice.
pub open spec fn distinct(v: Seq<(Seq<char>, Seq<char>)>) -> bool {
    forall|i: int, j: int| 0 <= i < j < v.len() ==> (#[trigger] v[i]).0 != (#[trigger] v[j]).0
}

/// The entries are in order, and each key has one.
#[verifier::opaque]
pub open spec fn orderly(v: Seq<(Seq<char>, Seq<char>)>) -> bool {
    by_rank(v) && distinct(v)
}

/// The position of the first entry with this key, or the length.
pub open spec fn find_key(v: Seq<(Seq<char>, Seq<char>)>, key: Seq<char>) -> int
    decreases v.len(),
{
    if v.len() == 0 || v[0].0 == key {
        0
    } else {
        1 + find_key(v.skip(1), key)
    }
}

/// The position behind all entries whose number is at most `n`, in a list in the
/// order of the numbers.
pub open spec fn place_for(v: Seq<(Seq<char>, Seq<char>)>, n: int) -> int
    decreases v.len(),
{
    if v.len() == 0 || rank(v.last().0) <= n {
        v.len() as int
    } else {
        place_for(v.drop_last(), n)
    }
}

/// The entries after a setting was noted.
pub open spec fn upserted(
    v: Seq<(Seq<char>, Seq<char>)>,
    key: Seq<char>,
    value: Seq<char>,
) -> Seq<(Seq<char>, Seq<char>)> {
    let i = find_key(v, key);
    if i < v.len() {
        v.update(i, (key, value))
    } else {
        v.insert(place_for(v, rank(key)), (key, value))
    }
}

proof fn lemma_find_key_is(v: Seq<(Seq<char>, Seq<char>)>, key: Seq<char>, n: int)
    requires
        0 <= n <= v.len(),
        n < v.len() ==> v[n].0 == key,
        forall|i: int| 0 <= i < n ==> (#[trigger] v[i]).0 != key,
    ensures
        find_key(v, key) == n,
    decreases n,
{
    if n > 0 {
        assert(v[0].0 != key);
        let w = v.skip(1);
        assert forall|i: int| 0 <= i < n - 1 implies (#[trigger] w[i]).0 != key by {
            assert(w[i] == v[i + 1]);
        }
        lemma_find_key_is(w, key, n - 1);
    }
}

proof fn lemma_place_for(v: Seq<(Seq<char>, Seq<char>)>, n: int)
    ensures
        0 <= place_for(v, n) <= v.len(),
        place_for(v, n) > 0 ==> rank(v[place_for(v, n) - 1].0) <= n,
        forall|i: int| place_for(v, n) <= i < v.len() ==> rank((#[trigger] v[i]).0) > n,
    decreases v.len(),
{
    if v.len() > 0 && rank(v.last().0) > n {
        let w = v.drop_last();
        lemma_place_for(w, n);
        assert forall|i: int| place_for(v, n) <= i < v.len() implies rank((#[trigger] v[i]).0) > n by {
            if i < w.len() {
                assert(w[i] == v[i]);
            }
        }
    }
}

fn key_rank(key: &str) -> (r: i64)
    ensures
        r == rank(key@),
{
    let v = text::to_chars(key);
    let mut i: usize = 0;
    assert(v@.skip(0) == key@);
    while i < v.len() && v[i] == '$'
        invariant
            v@ == key@,
            i <= v@.len(),
            without_dollars(v@.skip(i as int)) == without_dollars(key@),
        decreases v@.len() - i,
    {
        assert(v@.skip(i as int).skip(1) == v@.skip(i + 1));
        i = i + 1;
    }
    assert(v@.skip(i as int) == v@.subrange(i as int, v@.len() as int));
    match text::parse_integer(text::string_of(&v, i, v.len()).as_str()) {
        Some(n) => n,
        None => i64::MAX,
    }
}

proof fn lemma_inserted_is_orderly(
    before: Seq<(Seq<char>, Seq<char>)>,
    p: int,
    k: Seq<char>,
    val: Seq<char>,
)
    requires
        orderly(before),
        0 <= p <= before.len(),
        forall|i: int| 0 <= i < before.len() ==> (#[trigger] before[i]).0 != k,
        p > 0 ==> rank(before[p - 1].0) <= rank(k),
        forall|i: int| p <= i < before.len() ==> rank((#[trigger] before[i]).0) > rank(k),
    ensures
        orderly(before.insert(p, (k, val))),
{
    reveal(orderly);
    let after = before.insert(p, (k, val));
    assert forall|a: int, b: int| 0 <= a <= b < after.len() implies rank((#[trigger] after[a]).0)
        <= rank((#[trigger] after[b]).0) by {
        let u = if a < p {
            a
        } else {
            a - 1
        };
        let w = if b < p {
            b
        } else {
            b - 1
        };
        if a != p && b != p {
            assert(after[a] == before[u] && after[b] == before[w]);
        } else if a == p && b > p {
            assert(after[b] == before[w]);
        } else if b == p && a < p {
            assert(after[a] == before[a]);
            assert(rank(before[a].0) <= rank(before[p - 1].0));
        }
    }
    assert forall|a: int, b: int| 0 <= a < b < after.len() implies (#[trigger] after[a]).0 != (
    #[trigger] after[b]).0 by {
        let u = if a < p {
            a
        } else {
            a - 1
        };
        let w = if b < p {
            b
        } else {
            b - 1
        };
        if a != p && b != p {
            assert(after[a] == before[u] && after[b] == before[w]);
        } else if a == p {
            assert(after[b] == before[w]);
        } else {
            assert(after[a] == before[u]);
        }
    }
}

fn upsert(list: &mut Vec<(String, String)>, key: String, value: String)
    requires
        orderly(entries(old(list)@)),
    ensures
        orderly(entries(final(list)@)),
        entries(final(list)@) == upserted(entries(old(list)@), key@, value@),
{
    let ghost before = entries(list@);
    let ghost k = key@;
    let ghost val = value@;
    let mut i: usize = 0;
    while i < list.len()
        invariant
            i <= list@.len(),
            entries(list@) == before,
            before == entries(old(list)@),
            orderly(before),
            k == key@,
            val == value@,
            forall|j: int| 0 <= j < i ==> (#[trigger] before[j]).0 != k,
        decreases list@.len() - i,
    {
        assert(before[i as int].0 == list@[i as int].0@);
        if text::same(list[i].0.as_str(), key.as_str()) {
            proof {
                lemma_find_key_is(before, k, i as int);
                reveal(orderly);
            }
            list.set(i, (key, value));
            let ghost after = entries(list@);
            assert(after == before.update(i as int, (k, val)));
            assert forall|a: int, b: int| 0 <= a <= b < after.len() implies rank(
                (#[trigger] after[a]).0,
            ) <= rank((#[trigger] after[b]).0) by {
                assert(after[a].0 == before[a].0 && after[b].0 == before[b].0);
            }
            assert forall|a: int, b: int| 0 <= a < b < after.len() implies (#[trigger] after[a]).0
                != (#[trigger] after[b]).0 by {
                assert(after[a].0 == before[a].0 && after[b].0 == before[b].0);
            }
            return;
        }
        i = i + 1;
    }
    proof {
        lemma_find_key_is(before, k, before.len() as int);
        reveal(orderly);
    }
    let n = key_rank(key.as_str());
    let mut p: usize = list.len();
    assert(before.take(before.len() as int) == before);
    while p > 0 && key_rank(list[p - 1].0.as_str()) > n
        invariant
            p <= list@.len(),
            entries(list@) == before,
            n == rank(k),
            place_for(before, n as int) == place_for(before.take(p as int), n as int),
        decreases p,
    {
        assert(before[p - 1].0 == list@[p - 1].0@);
        assert(before.take(p as int).drop_last() == before.take(p - 1));
        p = p - 1;
    }
    proof {
        if p > 0 {
            assert(before.take(p as int).last().0 == list@[p - 1].0@);
        }
        assert(place_for(before, n as int) == p);
        lemma_place_for(before, n as int);
    }
    list.insert(p, (key, value));
    assert(entries(list@) == before.insert(p as int, (k, val)));
    proof {
        lemma_inserted_is_orderly(before, p as int, k, val);
    }
}

/// A noted setting is found again with its value.
pub proof fn noted_setting_is_found(
    v: Seq<(Seq<char>, Seq<char>)>,
    key: Seq<char>,
    value: Seq<char>,
)
    ensures
        upserted(v, key, value).contains((key, value)),
{
    lemma_find_key_in_range(v, key);
    let i = find_key(v, key);
    if i < v.len() {
        assert(upserted(v, key, value)[i] == (key, value));
    } else {
        let p = place_for(v, rank(key));
        lemma_place_for(v, rank(key));
        assert(upserted(v, key, value)[p] == (key, value));
    }
}

proof fn lemma_find_key_in_range(v: Seq<(Seq<char>, Seq<char>)>, key: Seq<char>)
    ensures
        0 <= find_key(v, key) <= v.len(),
    decreases v.len(),
{
    if v.len() > 0 && v[0].0 != key {
        lemma_find_key_in_range(v.skip(1), key);
    }
}

// ── Laws ──────────────────────────────────────────────────────────────────────

/// Tabs and panes come in their order: connect, control, G-code, preview,
/// settings; the ports, the console, the command line; jogging, overrides,
/// settings.
pub proof fn tabs_and_panes_come_in_order(a: FocusedPane, b: ControlFocus)
    ensures
        ActiveTab::Connect.place() == 0 && ActiveTab::Control.place() == 1
            && ActiveTab::GCode.place() == 2 && ActiveTab::Preview.place() == 3
            && ActiveTab::Settings.place() == 4,
        FocusedPane::SerialList.following() is Console,
        FocusedPane::Console.following() is CommandInput,
        ControlFocus::Jog.following() is Overrides,
        ControlFocus::Overrides.following() is Settings,
        a.following() != a && a.following().following() != a && a.following().following().following()
            == a,
        b.following() != b && b.following().following() != b && b.following().following().following()
            == b,
{
}

/// Tabs are told apart by their titles, and so are the baud rates, of which there
/// are two.
pub proof fn titles_are_told_apart(a: ActiveTab, b: ActiveTab, x: BaudRate, y: BaudRate)
    ensures
        a.title() == b.title() ==> a == b,
        x.rate() == y.rate() ==> x == y,
        BaudRate::B115200.rate() == 115200 && BaudRate::B56000.rate() == 56000,
        ActiveTab::Connect.title() == "Connect"@ && ActiveTab::Control.title() == "Control"@
            && ActiveTab::GCode.title() == "GCode"@,
        ActiveTab::Preview.title() == "Preview"@ && ActiveTab::Settings.title() == "Settings"@,
{
    reveal_strlit("Connect");
    reveal_strlit("Control");
    reveal_strlit("GCode");
    reveal_strlit("Preview");
    reveal_strlit("Settings");
    assert("Connect"@[3] == 'n' && "Control"@[3] == 't');
    assert("GCode"@.len() == 5 && "Preview"@[0] == 'P' && "Settings"@[0] == 'S');
    assert("Connect"@[0] == 'C' && "Control"@[0] == 'C');
}

/// Each axis has the field of its own shift and its own letter.
pub proof fn axes_have_their_own_field(s: settings::Settings)
    ensures
        s.field(Axis::X.field() as int) == crate::message::exact(s.origin_x, 1),
        s.field(Axis::Y.field() as int) == crate::message::exact(s.origin_y, 1),
        Axis::X.letter() == "X"@ && Axis::Y.letter() == "Y"@,
{
}

/// One layer is drawn in the next mode; nothing else of it changes, and no other
/// layer does.
pub proof fn only_one_mode_is_cycled(v: Seq<Layer>, k: int, j: int)
    requires
        0 <= j < v.len(),
    ensures
        with_next_mode(v, k).len() == v.len(),
        j != k ==> with_next_mode(v, k)[j] == v[j],
        j == k ==> {
            let (before, after) = (v[j], with_next_mode(v, k)[j]);
            &&& after.mode == before.mode.following()
            &&& after.label == before.label && after.key == before.key
            &&& after.feedrate == before.feedrate && after.power == before.power && after.passes
                == before.passes
            &&& after.svg_feedrate == before.svg_feedrate && after.svg_power == before.svg_power
                && after.svg_passes == before.svg_passes
        },
        !(0 <= k < v.len()) ==> with_next_mode(v, k) == v,
{
}

/// The chosen port is the one that is selected in the list, and none is where the
/// selection lies outside it.
pub proof fn the_selected_port_is_chosen(app: App, i: usize)
    ensures
        app.ports.port_list_selected == Some(i) && i < app.ports.port_list@.len()
            ==> app.chosen_port() == Some(app.ports.port_list@[i as int]@),
        app.ports.port_list_selected == Some(i) && i >= app.ports.port_list@.len()
            ==> app.chosen_port() is None,
        app.ports.port_list_selected is None ==> app.chosen_port() is None,
        app.ports.port_list@.len() == 0 ==> app.chosen_port() is None,
{
}

/// A step goes to the next entry, and from the last to the first; a step back goes
/// to the one before, and from the first to the last; without a selection they go
/// to the first and to the last.
pub proof fn steps_go_round(i: usize, n: nat)
    requires
        i < n <= usize::MAX,
    ensures
        i + 1 < n ==> stepped(Some(i), n) == Some((i + 1) as usize),
        i + 1 == n ==> stepped(Some(i), n) == Some(0usize),
        i > 0 ==> stepped_back(Some(i), n) == Some((i - 1) as usize),
        i == 0 ==> stepped_back(Some(i), n) == Some((n - 1) as usize),
        stepped(None, n) == Some(0usize),
        stepped_back(None, n) == Some((n - 1) as usize),
        behind(i, n) < n && before(i, n) < n,
{
    if i + 1 < n {
        vstd::arithmetic::div_mod::lemma_small_mod((i + 1) as nat, n);
    } else {
        vstd::arithmetic::div_mod::lemma_mod_self_0(n as int);
    }
}

/// In an empty list the selection stays as it is, and no selection stands for the
/// first.
pub proof fn nothing_is_selected_in_an_empty_list(s: Option<usize>)
    ensures
        stepped(s, 0) == s,
        stepped_back(s, 0) == s,
        s matches Some(i) ==> chosen_or_first(s) == i,
        s is None ==> chosen_or_first(s) == 0,
{
}

/// Scrolling up leaves the end of the console by as many lines, as far as they can
/// be counted; scrolling down comes back by as many, and at the end it follows.
pub proof fn scrolling_goes_up_and_down(c: Conversation, lines: u16)
    ensures
        !scrolled_up(c, lines).follow,
        c.scroll + lines <= u16::MAX ==> scrolled_up(c, lines).scroll == c.scroll + lines,
        c.scroll + lines > u16::MAX ==> scrolled_up(c, lines).scroll == u16::MAX,
        c.scroll > lines ==> scrolled_down(c, lines).scroll == c.scroll - lines && scrolled_down(
            c,
            lines,
        ).follow == c.follow,
        c.scroll <= lines ==> scrolled_down(c, lines).scroll == 0 && scrolled_down(c, lines).follow,
        scrolled_up(c, lines).console == c.console && scrolled_up(c, lines).outbox == c.outbox,
        scrolled_down(c, lines).console == c.console && scrolled_down(c, lines).outbox == c.outbox,
        c.scroll + lines <= u16::MAX && c.scroll > 0 ==> scrolled_down(
            scrolled_up(c, lines),
            lines,
        ).scroll == c.scroll,
{
}

/// The text has as many lines as it is cut into, none without a text, and its last
/// line is one before their number.
pub proof fn lines_are_counted(app: App)
    ensures
        app.work.gcode_text is None ==> app.line_count() == 0 && app.last_line() == 0,
        app.work.gcode_text matches Some(t) ==> app.line_count() == text::lines(t@).len(),
        app.line_count() > 0 ==> app.last_line() == app.line_count() - 1,
        app.line_count() == 0 ==> app.last_line() == 0,
{
}

/// The selected switch is on where its setting is; a field that is no switch is
/// not.
pub proof fn switches_are_on_where_their_setting_is(app: App)
    ensures
        ({
            let i = app.config.settings_selected;
            let s = app.config.machine_settings@;
            &&& i == 12 ==> app.switch_is_on() == s.circular_interpolation
            &&& i == 13 ==> app.switch_is_on() == s.line_numbers
            &&& i == 14 ==> app.switch_is_on() == s.checksums
            &&& i < 12 || i > 14 ==> !app.switch_is_on()
        }),
{
}

/// A key of a dollar sign and a number has that number; one without a number comes
/// behind all others.
pub proof fn keys_rank_by_their_number(n: nat, key: Seq<char>)
    requires
        n <= i64::MAX,
    ensures
        rank(seq!['$'] + text::decimal(n)) == n,
        text::integer_i64(without_dollars(key)) is None ==> rank(key) == 0x7fff_ffff_ffff_ffff,
        rank(key) <= 0x7fff_ffff_ffff_ffff,
        rank(seq!['$'] + key) == rank(key),
{
    let d = text::decimal(n);
    text::written_numbers_are_read_back(n);
    text::written_numbers_are_read_up_to_the_limit(n, n);
    assert((seq!['$'] + d).skip(1) =~= d);
    assert(text::is_digit(d[0]));
    assert((seq!['$'] + key).skip(1) =~= key);
    reveal_with_fuel(without_dollars, 2);
}

/// Noting a setting keeps all others, in their order, and the setting has one entry
/// with the new value: a known one in its place, a new one behind all whose number
/// is not greater.
pub proof fn noting_a_setting_keeps_the_others(
    v: Seq<(Seq<char>, Seq<char>)>,
    key: Seq<char>,
    value: Seq<char>,
    i: int,
)
    requires
        0 <= i < v.len(),
    ensures
        ({
            let after = upserted(v, key, value);
            let known = exists|k: int| 0 <= k < v.len() && (#[trigger] v[k]).0 == key;
            &&& known ==> after.len() == v.len()
            &&& !known ==> after.len() == v.len() + 1
            &&& v[i].0 != key ==> after.contains(v[i])
            &&& known && v[i].0 != key ==> after[i] == v[i]
        }),
{
    lemma_find_key(v, key);
    let after = upserted(v, key, value);
    let n = find_key(v, key);
    if n < v.len() {
        assert(v[n].0 == key);
        if v[i].0 != key {
            assert(after[i] == v[i]);
        }
    } else {
        let p = place_for(v, rank(key));
        lemma_place_for(v, rank(key));
        if i < p {
            assert(after[i] == v[i]);
        } else {
            assert(after[i + 1] == v[i]);
        }
    }
}

proof fn lemma_find_key(v: Seq<(Seq<char>, Seq<char>)>, key: Seq<char>)
    ensures
        0 <= find_key(v, key) <= v.len(),
        find_key(v, key) < v.len() ==> v[find_key(v, key)].0 == key,
        forall|i: int| 0 <= i < find_key(v, key) ==> (#[trigger] v[i]).0 != key,
    decreases v.len(),
{
    if v.len() > 0 && v[0].0 != key {
        let w = v.skip(1);
        lemma_find_key(w, key);
        assert forall|i: int| 0 <= i < find_key(v, key) implies (#[trigger] v[i]).0 != key by {
            if i > 0 {
                assert(w[i - 1] == v[i]);
            }
        }
    }
}

/// Settings that are in the order of their numbers stay so when one is noted, and
/// no key has two entries.
pub proof fn settings_stay_in_order(
    v: Seq<(Seq<char>, Seq<char>)>,
    key: Seq<char>,
    value: Seq<char>,
    i: int,
    j: int,
)
    requires
        forall|a: int, b: int|
            0 <= a <= b < v.len() ==> rank((#[trigger] v[a]).0) <= rank((#[trigger] v[b]).0),
        forall|a: int, b: int| 0 <= a < b < v.len() ==> (#[trigger] v[a]).0 != (#[trigger] v[b]).0,
        0 <= i < j < upserted(v, key, value).len(),
    ensures
        rank(upserted(v, key, value)[i].0) <= rank(upserted(v, key, value)[j].0),
        upserted(v, key, value)[i].0 != upserted(v, key, value)[j].0,
{
    lemma_find_key(v, key);
    let after = upserted(v, key, value);
    let n = find_key(v, key);
    reveal(orderly);
    if n < v.len() {
        assert(after[i].0 == v[i].0 && after[j].0 == v[j].0);
    } else {
        let p = place_for(v, rank(key));
        lemma_place_for(v, rank(key));
        lemma_inserted_is_orderly(v, p, key, value);
    }
}

/// Where settings are in order, the number of an earlier one is not above that of
/// a later one, and no two have one key.
pub proof fn settings_in_order_go_up(v: Seq<(Seq<char>, Seq<char>)>, i: int, j: int)
    requires
        orderly(v),
        0 <= i < j < v.len(),
    ensures
        rank(v[i].0) <= rank(v[j].0),
        v[i].0 != v[j].0,
{
    reveal(orderly);
}

/// An entry into a layer is that of the selected layer, with what was typed and the
/// limits of the machine.
pub proof fn the_selected_layer_is_entered(app: App, number: Option<Real>)
    ensures
        ({
            let l = app.panel.layers@[app.panel.layer_selected as int]@;
            let (f, complaint) = app.layer_entry(0, number);
            &&& f.power == l.power && f.passes == l.passes && f.key == l.key
            &&& app.layer_entry(1, number).0.feedrate == l.feedrate
            &&& app.layer_entry(1, number).0.passes == l.passes
            &&& app.layer_entry(2, number).0.feedrate == l.feedrate
            &&& app.layer_entry(2, number).0.power == l.power
            &&& text::trimmed(app.panel.layer_edit_buf@).len() == 0 ==> f.feedrate is None
                && complaint is None
        }),
{
}

/// Leaving the entry into a layer forgets what was complained of, and nothing of
/// the layers.
pub proof fn leaving_an_entry_keeps_the_layers(app: App, buf: String, talk: Talk)
    ensures
        app.not_editing_layer(buf).panel.layer_edit_field is None,
        app.not_editing_layer(buf).panel.layer_edit_error is None,
        app.not_editing_layer(buf).panel.layer_edit_buf == buf,
        app.not_editing_layer(buf).panel.layers == app.panel.layers,
        app.not_editing_layer(buf).panel.layer_selected == app.panel.layer_selected,
        app.not_editing_layer(buf).work == app.work,
        app.not_editing_layer(buf).talk == app.talk,
        app.talking(talk).talk == talk,
        app.talking(talk).work == app.work,
        app.talking(talk).panel == app.panel,
        app.talking(talk).machine == app.machine,
        app.talking(talk).ports == app.ports,
        app.talking(talk).config == app.config,
{
}

} // verus!
