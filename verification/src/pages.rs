//! The buttons on the pages of the window.
use vstd::prelude::*;

use crate::grbl::JogDir;
use crate::window::AppMsg;

verus! {

/// How a button stands out.
#[derive(Debug, Clone, Copy, PartialEq, Eq, Structural)]
pub enum Look {
    Plain,
    Suggested,
    Destructive,
}

/// What a button asks for.
#[derive(Debug, Clone, Copy, PartialEq, Eq, Structural)]
pub enum Press {
    Refresh,
    Connect,
    Disconnect,
    Home,
    StepSmaller,
    StepLarger,
    Jog(JogDir),
    Byte(u8),
    Poll,
    Unlock,
    ListSettings,
    Open,
    Convert,
    Send,
    Abort,
    Frame,
    Save,
    Render,
}

/// A button on a page.
#[derive(Debug)]
pub struct Button {
    pub label: &'static str,
    pub tip: Option<&'static str>,
    /// Its place among the buttons of the page.
    pub column: u8,
    pub row: u8,
    pub look: Look,
    /// Whether it can be pressed at the start.
    pub sensitive: bool,
    pub press: Press,
}

/// A button, with texts by their characters.
pub struct Sketch {
    pub label: Seq<char>,
    pub tip: Option<Seq<char>>,
    pub column: u8,
    pub row: u8,
    pub look: Look,
    pub sensitive: bool,
    pub press: Press,
}

impl View for Button {
    type V = Sketch;

    open spec fn view(&self) -> Sketch {
        Sketch {
            label: self.label@,
            tip: match self.tip {
                Some(t) => Some(t@),
                None => None,
            },
            column: self.column,
            row: self.row,
            look: self.look,
            sensitive: self.sensitive,
            press: self.press,
        }
    }
}

/// The buttons of a page, with texts by their characters.
pub open spec fn sketches(v: Seq<Button>) -> Seq<Sketch> {
    v.map_values(|b: Button| b@)
}

/// No two buttons are in the same place.
pub open spec fn apart(v: Seq<Sketch>) -> bool {
    forall|i: int, j: int|
        0 <= i < j < v.len() ==> ((#[trigger] v[i]).column, v[i].row) != (
            (#[trigger] v[j]).column,
            v[j].row,
        )
}

/// The message that a button sends.
pub open spec fn sends(press: Press, msg: AppMsg) -> bool {
    match press {
        Press::Refresh => msg is RefreshPorts,
        Press::Connect => msg is Connect,
        Press::Disconnect => msg is Disconnect,
        Press::Home => msg is Home,
        Press::StepSmaller => msg is JogStepSmaller,
        Press::StepLarger => msg is JogStepLarger,
        Press::Jog(dir) => msg == AppMsg::JogMove(dir),
        Press::Byte(b) => msg == AppMsg::SendRealtime(b),
        Press::Poll => msg is PollStatus,
        Press::Unlock => msg matches AppMsg::SendRaw(s) && s@ == "$X"@,
        Press::ListSettings => msg matches AppMsg::SendRaw(s) && s@ == "$$"@,
        Press::Open => msg is OpenFile,
        Press::Convert => msg is Convert,
        Press::Send => msg is SendGCode,
        Press::Abort => msg is AbortStream,
        Press::Frame => msg is FrameJob,
        Press::Save => msg is SaveGCode,
        Press::Render => msg is RenderPreview,
    }
}

/// The message that a button sends.
pub fn message_of(press: Press) -> (r: AppMsg)
    ensures
        sends(press, r),
{
    match press {
        Press::Refresh => AppMsg::RefreshPorts,
        Press::Connect => AppMsg::Connect,
        Press::Disconnect => AppMsg::Disconnect,
        Press::Home => AppMsg::Home,
        Press::StepSmaller => AppMsg::JogStepSmaller,
        Press::StepLarger => AppMsg::JogStepLarger,
        Press::Jog(dir) => AppMsg::JogMove(dir),
        Press::Byte(b) => AppMsg::SendRealtime(b),
        Press::Poll => AppMsg::PollStatus,
        Press::Unlock => AppMsg::SendRaw("$X".to_owned()),
        Press::ListSettings => AppMsg::SendRaw("$$".to_owned()),
        Press::Open => AppMsg::OpenFile,
        Press::Convert => AppMsg::Convert,
        Press::Send => AppMsg::SendGCode,
        Press::Abort => AppMsg::AbortStream,
        Press::Frame => AppMsg::FrameJob,
        Press::Save => AppMsg::SaveGCode,
        Press::Render => AppMsg::RenderPreview,
    }
}

/// The buttons below the list of ports, in two rows.
pub open spec fn connect_buttons() -> Seq<Sketch> {
    seq![
        Sketch {
            label: "Refresh"@,
            tip: None,
            column: 0,
            row: 0,
            look: Look::Plain,
            sensitive: true,
            press: Press::Refresh,
        },
        Sketch {
            label: "Connect"@,
            tip: None,
            column: 1,
            row: 0,
            look: Look::Suggested,
            sensitive: true,
            press: Press::Connect,
        },
        Sketch {
            label: "Disconnect"@,
            tip: None,
            column: 0,
            row: 1,
            look: Look::Plain,
            sensitive: false,
            press: Press::Disconnect,
        },
        Sketch {
            label: "Home ($H)"@,
            tip: None,
            column: 1,
            row: 1,
            look: Look::Plain,
            sensitive: true,
            press: Press::Home,
        },
    ]
}

/// The buttons below the list of ports, in two rows.
pub fn build_connect_page() -> (r: Vec<Button>)
    ensures
        sketches(r@) == connect_buttons(),
{
    let r = vec![
        Button {
            label: "Refresh",
            tip: None,
            column: 0,
            row: 0,
            look: Look::Plain,
            sensitive: true,
            press: Press::Refresh,
        },
        Button {
            label: "Connect",
            tip: None,
            column: 1,
            row: 0,
            look: Look::Suggested,
            sensitive: true,
            press: Press::Connect,
        },
        Button {
            label: "Disconnect",
            tip: None,
            column: 0,
            row: 1,
            look: Look::Plain,
            sensitive: false,
            press: Press::Disconnect,
        },
        Button {
            label: "Home ($H)",
            tip: None,
            column: 1,
            row: 1,
            look: Look::Plain,
            sensitive: true,
            press: Press::Home,
        },
    ];
    assert(sketches(r@) =~= connect_buttons());
    r
}

/// The buttons beside the step of a jog.
pub open spec fn step_buttons() -> Seq<Sketch> {
    seq![
        Sketch {
            label: "Step −"@,
            tip: None,
            column: 0,
            row: 0,
            look: Look::Plain,
            sensitive: true,
            press: Press::StepSmaller,
        },
        Sketch {
            label: "Step +"@,
            tip: None,
            column: 2,
            row: 0,
            look: Look::Plain,
            sensitive: true,
            press: Press::StepLarger,
        },
    ]
}

/// The buttons beside the step of a jog.
pub fn build_step_row() -> (r: Vec<Button>)
    ensures
        sketches(r@) == step_buttons(),
{
    let r = vec![
        Button {
            label: "Step −",
            tip: None,
            column: 0,
            row: 0,
            look: Look::Plain,
            sensitive: true,
            press: Press::StepSmaller,
        },
        Button {
            label: "Step +",
            tip: None,
            column: 2,
            row: 0,
            look: Look::Plain,
            sensitive: true,
            press: Press::StepLarger,
        },
    ];
    assert(sketches(r@) =~= step_buttons());
    r
}

/// The pad for jogging, with the button that ends a jog in its middle.
pub open spec fn jog_buttons() -> Seq<Sketch> {
    seq![
        Sketch {
            label: "Y+"@,
            tip: None,
            column: 1,
            row: 0,
            look: Look::Plain,
            sensitive: true,
            press: Press::Jog(JogDir::YPlus),
        },
        Sketch {
            label: "X−"@,
            tip: None,
            column: 0,
            row: 1,
            look: Look::Plain,
            sensitive: true,
            press: Press::Jog(JogDir::XMinus),
        },
        Sketch {
            label: "X+"@,
            tip: None,
            column: 2,
            row: 1,
            look: Look::Plain,
            sensitive: true,
            press: Press::Jog(JogDir::XPlus),
        },
        Sketch {
            label: "Y−"@,
            tip: None,
            column: 1,
            row: 2,
            look: Look::Plain,
            sensitive: true,
            press: Press::Jog(JogDir::YMinus),
        },
        Sketch {
            label: "Z+"@,
            tip: None,
            column: 3,
            row: 0,
            look: Look::Plain,
            sensitive: true,
            press: Press::Jog(JogDir::ZPlus),
        },
        Sketch {
            label: "Z−"@,
            tip: None,
            column: 3,
            row: 2,
            look: Look::Plain,
            sensitive: true,
            press: Press::Jog(JogDir::ZMinus),
        },
        Sketch {
            label: "⊗"@,
            tip: Some("Cancel jog (0x85)"@),
            column: 1,
            row: 1,
            look: Look::Plain,
            sensitive: true,
            press: Press::Byte(0x85),
        },
    ]
}

/// The pad for jogging, with the button that ends a jog in its middle.
pub fn build_jog_pad() -> (r: Vec<Button>)
    ensures
        sketches(r@) == jog_buttons(),
{
    let r = vec![
        Button {
            label: "Y+",
            tip: None,
            column: 1,
            row: 0,
            look: Look::Plain,
            sensitive: true,
            press: Press::Jog(JogDir::YPlus),
        },
        Button {
            label: "X−",
            tip: None,
            column: 0,
            row: 1,
            look: Look::Plain,
            sensitive: true,
            press: Press::Jog(JogDir::XMinus),
        },
        Button {
            label: "X+",
            tip: None,
            column: 2,
            row: 1,
            look: Look::Plain,
            sensitive: true,
            press: Press::Jog(JogDir::XPlus),
        },
        Button {
            label: "Y−",
            tip: None,
            column: 1,
            row: 2,
            look: Look::Plain,
            sensitive: true,
            press: Press::Jog(JogDir::YMinus),
        },
        Button {
            label: "Z+",
            tip: None,
            column: 3,
            row: 0,
            look: Look::Plain,
            sensitive: true,
            press: Press::Jog(JogDir::ZPlus),
        },
        Button {
            label: "Z−",
            tip: None,
            column: 3,
            row: 2,
            look: Look::Plain,
            sensitive: true,
            press: Press::Jog(JogDir::ZMinus),
        },
        Button {
            label: "⊗",
            tip: Some("Cancel jog (0x85)"),
            column: 1,
            row: 1,
            look: Look::Plain,
            sensitive: true,
            press: Press::Byte(0x85),
        },
    ];
    assert(sketches(r@) =~= jog_buttons());
    r
}

/// The buttons for the machine.
pub open spec fn control_buttons() -> Seq<Sketch> {
    seq![
        Sketch {
            label: "Home"@,
            tip: Some("Run homing cycle ($H)"@),
            column: 0,
            row: 0,
            look: Look::Plain,
            sensitive: true,
            press: Press::Home,
        },
        Sketch {
            label: "Hold !"@,
            tip: Some("Feed hold"@),
            column: 1,
            row: 0,
            look: Look::Plain,
            sensitive: true,
            press: Press::Byte(0x21),
        },
        Sketch {
            label: "Start ~"@,
            tip: Some("Cycle start / resume"@),
            column: 2,
            row: 0,
            look: Look::Plain,
            sensitive: true,
            press: Press::Byte(0x7e),
        },
        Sketch {
            label: "Reset"@,
            tip: Some("Soft reset (Ctrl-X)"@),
            column: 3,
            row: 0,
            look: Look::Plain,
            sensitive: true,
            press: Press::Byte(0x18),
        },
        Sketch {
            label: "Poll ?"@,
            tip: Some("Manual status poll"@),
            column: 4,
            row: 0,
            look: Look::Plain,
            sensitive: true,
            press: Press::Poll,
        },
        Sketch {
            label: "$X"@,
            tip: Some("Unlock alarm"@),
            column: 5,
            row: 0,
            look: Look::Plain,
            sensitive: true,
            press: Press::Unlock,
        },
        Sketch {
            label: "$$"@,
            tip: Some("Dump GRBL settings"@),
            column: 6,
            row: 0,
            look: Look::Plain,
            sensitive: true,
            press: Press::ListSettings,
        },
    ]
}

/// The buttons for the machine.
pub fn build_control_page() -> (r: Vec<Button>)
    ensures
        sketches(r@) == control_buttons(),
{
    let r = vec![
        Button {
            label: "Home",
            tip: Some("Run homing cycle ($H)"),
            column: 0,
            row: 0,
            look: Look::Plain,
            sensitive: true,
            press: Press::Home,
        },
        Button {
            label: "Hold !",
            tip: Some("Feed hold"),
            column: 1,
            row: 0,
            look: Look::Plain,
            sensitive: true,
            press: Press::Byte(0x21),
        },
        Button {
            label: "Start ~",
            tip: Some("Cycle start / resume"),
            column: 2,
            row: 0,
            look: Look::Plain,
            sensitive: true,
            press: Press::Byte(0x7e),
        },
        Button {
            label: "Reset",
            tip: Some("Soft reset (Ctrl-X)"),
            column: 3,
            row: 0,
            look: Look::Plain,
            sensitive: true,
            press: Press::Byte(0x18),
        },
        Button {
            label: "Poll ?",
            tip: Some("Manual status poll"),
            column: 4,
            row: 0,
            look: Look::Plain,
            sensitive: true,
            press: Press::Poll,
        },
        Button {
            label: "$X",
            tip: Some("Unlock alarm"),
            column: 5,
            row: 0,
            look: Look::Plain,
            sensitive: true,
            press: Press::Unlock,
        },
        Button {
            label: "$$",
            tip: Some("Dump GRBL settings"),
            column: 6,
            row: 0,
            look: Look::Plain,
            sensitive: true,
            press: Press::ListSettings,
        },
    ];
    assert(sketches(r@) =~= control_buttons());
    r
}

/// The buttons for the overrides.
pub open spec fn override_buttons() -> Seq<Sketch> {
    seq![
        Sketch {
            label: "Feed 100%"@,
            tip: Some("Reset feed to 100%"@),
            column: 0,
            row: 0,
            look: Look::Plain,
            sensitive: true,
            press: Press::Byte(0x90),
        },
        Sketch {
            label: "Feed+10%"@,
            tip: Some("Feed override +10%"@),
            column: 1,
            row: 0,
            look: Look::Plain,
            sensitive: true,
            press: Press::Byte(0x91),
        },
        Sketch {
            label: "Feed−10%"@,
            tip: Some("Feed override −10%"@),
            column: 2,
            row: 0,
            look: Look::Plain,
            sensitive: true,
            press: Press::Byte(0x92),
        },
        Sketch {
            label: "Laser 100%"@,
            tip: Some("Reset laser to 100%"@),
            column: 3,
            row: 0,
            look: Look::Plain,
            sensitive: true,
            press: Press::Byte(0x99),
        },
        Sketch {
            label: "Laser+10%"@,
            tip: Some("Laser override +10%"@),
            column: 4,
            row: 0,
            look: Look::Plain,
            sensitive: true,
            press: Press::Byte(0x9a),
        },
        Sketch {
            label: "Laser−10%"@,
            tip: Some("Laser override −10%"@),
            column: 5,
            row: 0,
            look: Look::Plain,
            sensitive: true,
            press: Press::Byte(0x9b),
        },
    ]
}

/// The buttons for the overrides.
pub fn build_override_row() -> (r: Vec<Button>)
    ensures
        sketches(r@) == override_buttons(),
{
    let r = vec![
        Button {
            label: "Feed 100%",
            tip: Some("Reset feed to 100%"),
            column: 0,
            row: 0,
            look: Look::Plain,
            sensitive: true,
            press: Press::Byte(0x90),
        },
        Button {
            label: "Feed+10%",
            tip: Some("Feed override +10%"),
            column: 1,
            row: 0,
            look: Look::Plain,
            sensitive: true,
            press: Press::Byte(0x91),
        },
        Button {
            label: "Feed−10%",
            tip: Some("Feed override −10%"),
            column: 2,
            row: 0,
            look: Look::Plain,
            sensitive: true,
            press: Press::Byte(0x92),
        },
        Button {
            label: "Laser 100%",
            tip: Some("Reset laser to 100%"),
            column: 3,
            row: 0,
            look: Look::Plain,
            sensitive: true,
            press: Press::Byte(0x99),
        },
        Button {
            label: "Laser+10%",
            tip: Some("Laser override +10%"),
            column: 4,
            row: 0,
            look: Look::Plain,
            sensitive: true,
            press: Press::Byte(0x9a),
        },
        Button {
            label: "Laser−10%",
            tip: Some("Laser override −10%"),
            column: 5,
            row: 0,
            look: Look::Plain,
            sensitive: true,
            press: Press::Byte(0x9b),
        },
    ];
    assert(sketches(r@) =~= override_buttons());
    r
}

/// The buttons above the G-code text.
pub open spec fn gcode_buttons() -> Seq<Sketch> {
    seq![
        Sketch {
            label: "Open File…"@,
            tip: None,
            column: 0,
            row: 0,
            look: Look::Plain,
            sensitive: true,
            press: Press::Open,
        },
        Sketch {
            label: "Convert"@,
            tip: None,
            column: 1,
            row: 0,
            look: Look::Suggested,
            sensitive: false,
            press: Press::Convert,
        },
        Sketch {
            label: "Send GCode"@,
            tip: None,
            column: 2,
            row: 0,
            look: Look::Plain,
            sensitive: false,
            press: Press::Send,
        },
        Sketch {
            label: "Abort"@,
            tip: None,
            column: 3,
            row: 0,
            look: Look::Destructive,
            sensitive: false,
            press: Press::Abort,
        },
        Sketch {
            label: "Frame Job"@,
            tip: Some("Trace bounding box with laser off"@),
            column: 4,
            row: 0,
            look: Look::Plain,
            sensitive: false,
            press: Press::Frame,
        },
        Sketch {
            label: "Save…"@,
            tip: None,
            column: 5,
            row: 0,
            look: Look::Plain,
            sensitive: false,
            press: Press::Save,
        },
    ]
}

/// The buttons above the G-code text.
pub fn build_gcode_page() -> (r: Vec<Button>)
    ensures
        sketches(r@) == gcode_buttons(),
{
    let r = vec![
        Button {
            label: "Open File…",
            tip: None,
            column: 0,
            row: 0,
            look: Look::Plain,
            sensitive: true,
            press: Press::Open,
        },
        Button {
            label: "Convert",
            tip: None,
            column: 1,
            row: 0,
            look: Look::Suggested,
            sensitive: false,
            press: Press::Convert,
        },
        Button {
            label: "Send GCode",
            tip: None,
            column: 2,
            row: 0,
            look: Look::Plain,
            sensitive: false,
            press: Press::Send,
        },
        Button {
            label: "Abort",
            tip: None,
            column: 3,
            row: 0,
            look: Look::Destructive,
            sensitive: false,
            press: Press::Abort,
        },
        Button {
            label: "Frame Job",
            tip: Some("Trace bounding box with laser off"),
            column: 4,
            row: 0,
            look: Look::Plain,
            sensitive: false,
            press: Press::Frame,
        },
        Button {
            label: "Save…",
            tip: None,
            column: 5,
            row: 0,
            look: Look::Plain,
            sensitive: false,
            press: Press::Save,
        },
    ];
    assert(sketches(r@) =~= gcode_buttons());
    r
}

/// The button above the tool path.
pub open spec fn preview_buttons() -> Seq<Sketch> {
    seq![
        Sketch {
            label: "Render GCode Preview"@,
            tip: None,
            column: 0,
            row: 0,
            look: Look::Plain,
            sensitive: true,
            press: Press::Render,
        },
    ]
}

/// The button above the tool path.
pub fn build_preview_page() -> (r: Vec<Button>)
    ensures
        sketches(r@) == preview_buttons(),
{
    let r = vec![
        Button {
            label: "Render GCode Preview",
            tip: None,
            column: 0,
            row: 0,
            look: Look::Plain,
            sensitive: true,
            press: Press::Render,
        },
    ];
    assert(sketches(r@) =~= preview_buttons());
    r
}

/// On each page the buttons are in different places.
pub proof fn buttons_are_apart()
    ensures
        apart(connect_buttons()),
        apart(step_buttons()),
        apart(jog_buttons()),
        apart(control_buttons()),
        apart(override_buttons()),
        apart(gcode_buttons()),
        apart(preview_buttons()),
{
}

/// Each direction of a jog has a button.
pub proof fn every_direction_has_a_button(dir: JogDir)
    ensures
        exists|i: int|
            0 <= i < jog_buttons().len() && (#[trigger] jog_buttons()[i]).press == Press::Jog(dir),
{
    let i: int = match dir {
        JogDir::YPlus => 0,
        JogDir::XMinus => 1,
        JogDir::XPlus => 2,
        JogDir::YMinus => 3,
        JogDir::ZPlus => 4,
        JogDir::ZMinus => 5,
    };
    assert(jog_buttons()[i].press == Press::Jog(dir));
}

/// The pad has each direction where it points to: forward above back, right beside
/// left, up above down, and the button that ends a jog in the middle.
pub proof fn the_pad_points_where_it_jogs()
    ensures
        ({
            let b = jog_buttons();
            let (y1, x0, x1, y0, z1, z0, end) = (b[0], b[1], b[2], b[3], b[4], b[5], b[6]);
            &&& y1.press == Press::Jog(JogDir::YPlus) && y0.press == Press::Jog(JogDir::YMinus)
            &&& x1.press == Press::Jog(JogDir::XPlus) && x0.press == Press::Jog(JogDir::XMinus)
            &&& z1.press == Press::Jog(JogDir::ZPlus) && z0.press == Press::Jog(JogDir::ZMinus)
            &&& y1.column == y0.column && y1.row < end.row < y0.row && end.column == y1.column
            &&& x0.row == x1.row && x0.column < end.column < x1.column && end.row == x0.row
            &&& z1.column == z0.column && z1.row < z0.row && z1.column > x1.column
            &&& end.press == Press::Byte(0x85)
            &&& y1.label == "Y+"@ && x1.label == "X+"@ && z1.label == "Z+"@
            &&& y0.label == "Y−"@ && x0.label == "X−"@ && z0.label == "Z−"@
        }),
{
}

/// The buttons for the machine hold, resume, reset and ask by their bytes, and those
/// for the overrides reset, raise and lower by neighbouring ones.
pub proof fn buttons_send_the_bytes_of_the_machine()
    ensures
        ({
            let (c, o) = (control_buttons(), override_buttons());
            &&& c[0].press is Home
            &&& c[1].label == "Hold !"@ && c[1].press == Press::Byte('!' as u8)
            &&& c[2].label == "Start ~"@ && c[2].press == Press::Byte('~' as u8)
            &&& c[3].label == "Reset"@ && c[3].press == Press::Byte(0x18)
            &&& c[4].press is Poll && c[5].press is Unlock && c[6].press is ListSettings
            &&& o[0].label == "Feed 100%"@ && o[0].press == Press::Byte(0x90)
            &&& o[1].label == "Feed+10%"@ && o[1].press == Press::Byte(0x91)
            &&& o[2].label == "Feed−10%"@ && o[2].press == Press::Byte(0x92)
            &&& o[3].label == "Laser 100%"@ && o[3].press == Press::Byte(0x99)
            &&& o[4].label == "Laser+10%"@ && o[4].press == Press::Byte(0x9a)
            &&& o[5].label == "Laser−10%"@ && o[5].press == Press::Byte(0x9b)
        }),
{
}

/// The other buttons ask for what their labels say, and those that need a file, a
/// job or a connection cannot be pressed at the start.
pub proof fn buttons_ask_for_what_they_say()
    ensures
        ({
            let (c, s, g, p) = (
                connect_buttons(),
                step_buttons(),
                gcode_buttons(),
                preview_buttons(),
            );
            &&& c[0].press is Refresh && c[1].press is Connect && c[2].press is Disconnect
                && c[3].press is Home
            &&& c[1].sensitive && !c[2].sensitive
            &&& s[0].press is StepSmaller && s[1].press is StepLarger
            &&& g[0].press is Open && g[1].press is Convert && g[2].press is Send
                && g[3].press is Abort && g[4].press is Frame && g[5].press is Save
            &&& g[0].sensitive && !g[1].sensitive && !g[2].sensitive && !g[3].sensitive
                && !g[4].sensitive && !g[5].sensitive
            &&& g[3].look is Destructive && g[1].look is Suggested && c[1].look is Suggested
            &&& p[0].press is Render
        }),
{
}

/// A button sends the message of what it asks for.
pub proof fn buttons_send_what_they_ask_for(press: Press, msg: AppMsg)
    requires
        sends(press, msg),
    ensures
        press is Refresh <==> msg is RefreshPorts,
        press is Connect <==> msg is Connect,
        press is Disconnect <==> msg is Disconnect,
        press is Home <==> msg is Home,
        press is StepSmaller <==> msg is JogStepSmaller,
        press is StepLarger <==> msg is JogStepLarger,
        press matches Press::Jog(dir) ==> msg == AppMsg::JogMove(dir),
        press matches Press::Byte(b) ==> msg == AppMsg::SendRealtime(b),
        press is Poll <==> msg is PollStatus,
        press is Unlock ==> (msg matches AppMsg::SendRaw(s) && s@ == "$X"@),
        press is ListSettings ==> (msg matches AppMsg::SendRaw(s) && s@ == "$$"@),
        press is Open <==> msg is OpenFile,
        press is Convert <==> msg is Convert,
        press is Send <==> msg is SendGCode,
        press is Abort <==> msg is AbortStream,
        press is Frame <==> msg is FrameJob,
        press is Save <==> msg is SaveGCode,
        press is Render <==> msg is RenderPreview,
{
}

} // verus!
