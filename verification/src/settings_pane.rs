//! The settings tab.
use vstd::prelude::*;

use crate::app::App;
use crate::message::Message;
use crate::message;
use crate::settings::MachineSettings;
use crate::settings;
use crate::text;
use crate::view::{Row, Rows, Run, Tone};
use crate::view;

verus! {

/// The row of a field: its name, and its value or the text that is edited.
pub open spec fn field_row(app: App, i: int) -> Seq<Run> {
    let selected = i == app.config.settings_selected;
    let name = message::plain(text::left_aligned(settings::name_of_field(i), 22))
        + message::plain(" : "@);
    match app.config.settings_edit_buf {
        Some(buf) => if selected {
            seq![
                view::told(
                    Tone::MarkedBold,
                    name + message::plain(buf@) + message::plain("_"@),
                ),
            ]
        } else {
            seq![view::told(Tone::Title, name + app.config.machine_settings@.field(i))]
        },
        None => seq![
            view::told(
                if selected {
                    Tone::Picked
                } else {
                    Tone::Title
                },
                name + app.config.machine_settings@.field(i),
            ),
        ],
    }
}

fn render_field(app: &App, i: usize) -> (r: Row)
    ensures
        r@ == field_row(*app, i as int),
{
    let selected = i == app.config.settings_selected;
    let name = Message::text(
        text::align_left(MachineSettings::field_name(i), 22).as_str(),
    ).then_text(" : ");
    match &app.config.settings_edit_buf {
        Some(buf) => if selected {
            Row::new().and_message(
                Tone::MarkedBold,
                name.then_text(buf.as_str()).then_text("_"),
            )
        } else {
            Row::new().and_message(
                Tone::Title,
                name.followed_by(app.config.machine_settings.field_value(i)),
            )
        },
        None => {
            let tone = if selected {
                Tone::Picked
            } else {
                Tone::Title
            };
            Row::new().and_message(
                tone,
                name.followed_by(app.config.machine_settings.field_value(i)),
            )
        },
    }
}

/// The rows of all fields, and below them the complaint about an entry.
pub open spec fn all_rows(app: App) -> Seq<Seq<Run>> {
    let fields = Seq::new(settings::FIELD_COUNT as nat, |i: int| field_row(app, i));
    match app.config.settings_edit_error {
        Some(e) => fields.push(
            seq![
                view::told(Tone::BadBold, message::plain("  ✗ "@) + message::plain(e@)),
            ],
        ),
        None => fields,
    }
}

/// The first row that is shown in `height` rows, so that the selected field is
/// among them.
pub open spec fn first_row(selected: usize, height: nat) -> int {
    if selected >= height {
        selected - height + 1
    } else {
        0
    }
}

/// The selected field is shown where there is room for any.
pub proof fn selected_field_is_shown(selected: usize, height: nat)
    requires
        height > 0,
    ensures
        first_row(selected, height) <= selected < first_row(selected, height) + height,
{
}

/// The rows of the fields from the first that is shown in `height` rows.
pub open spec fn field_rows(app: App, height: nat) -> Seq<Seq<Run>> {
    let first = first_row(app.config.settings_selected, height);
    if first <= all_rows(app).len() {
        all_rows(app).skip(first)
    } else {
        seq![]
    }
}

/// The fields of the settings, from the first that is shown in `height` rows.
pub fn render_settings_fields(app: &App, height: usize) -> (r: Rows)
    requires
        height > 0 || app.config.settings_selected < usize::MAX,
    ensures
        r@ == field_rows(*app, height as nat),
{
    let first: usize = if app.config.settings_selected >= height {
        app.config.settings_selected - height + 1
    } else {
        0
    };
    let ghost all = all_rows(*app);
    let mut rows = Rows::new();
    let mut i: usize = first;
    assert(first <= all.len() ==> rows@ =~= all.subrange(first as int, first as int));
    while i < settings::FIELD_COUNT
        invariant
            all == all_rows(*app),
            first <= i,
            i <= settings::FIELD_COUNT || i == first,
            first <= all.len() ==> rows@ == all.subrange(first as int, i as int),
            first > all.len() ==> rows@.len() == 0,
        decreases settings::FIELD_COUNT - i,
    {
        rows = rows.and(render_field(app, i));
        assert(all[i as int] == field_row(*app, i as int));
        assert(rows@ =~= all.subrange(first as int, i + 1));
        i = i + 1;
    }
    match &app.config.settings_edit_error {
        Some(e) => {
            if first <= settings::FIELD_COUNT {
                let row = Row::new().and_message(
                    Tone::BadBold,
                    Message::text("  ✗ ").then_text(e.as_str()),
                );
                assert(row@ =~~= all[settings::FIELD_COUNT as int]);
                rows = rows.and(row);
            }
        },
        None => {},
    }
    assert(rows@ =~= field_rows(*app, height as nat));
    rows
}

/// What a field is for.
pub open spec fn description(idx: int) -> Seq<char> {
    if idx == 0 {
        "GCode sent before the job starts.\nTypically sets units, distance mode\nand turns the laser on.\nDo NOT include an S word here –\nthe laser power is appended\nautomatically from the\n'Laser power (S)' setting.\nExample: G90 G21 M4"@
    } else if idx == 1 {
        "GCode sent after the job ends.\nTypically turns the laser off\nand stops the program.\nExample: M5 M2"@
    } else if idx == 2 {
        "Maximum X travel of the machine\nin millimetres.\nUsed to validate job extents."@
    } else if idx == 3 {
        "Maximum Y travel of the machine\nin millimetres.\nUsed to validate job extents."@
    } else if idx == 4 {
        "Maximum machine speed in mm/min.\nUsed as a ceiling when validating\nthe feedrate setting."@
    } else if idx == 5 {
        "Maximum laser power (S-word).\nGRBL default is 1000.\nSet $30 on the controller to match."@
    } else if idx == 6 {
        "Laser-on feedrate in mm/min.\nApplied to all G1 cutting moves.\nMust be > 0."@
    } else if idx == 7 {
        "Bézier curve tolerance in mm.\nSmaller = more GCode lines,\nbetter curve accuracy.\nTypical: 0.01 – 0.5"@
    } else if idx == 8 {
        "Dots-per-inch assumed for SVG\npixel / point / pica units.\nStandard web DPI is 96."@
    } else if idx == 9 {
        "Laser power written into the\nbegin sequence (S word).\nRange: 0 – Max laser power."@
    } else if idx == 10 {
        "X offset in mm applied to the\nwhole job origin.\n0 = start at machine origin."@
    } else if idx == 11 {
        "Y offset in mm applied to the\nwhole job origin.\n0 = start at machine origin."@
    } else if idx == 12 {
        "Emit G2/G3 arc commands instead\nof linearising curves.\nRequires GRBL firmware support.\nToggle with Enter or Space."@
    } else if idx == 13 {
        "Prepend line numbers (N-words)\nto every GCode line.\nToggle with Enter or Space."@
    } else if idx == 14 {
        "Append XOR checksums to every\nGCode line.\nToggle with Enter or Space."@
    } else {
        ""@
    }
}

/// What a field is for.
pub fn field_description(idx: usize) -> (r: &'static str)
    ensures
        r@ == description(idx as int),
{
    if idx == 0 {
        "GCode sent before the job starts.\nTypically sets units, distance mode\nand turns the laser on.\nDo NOT include an S word here –\nthe laser power is appended\nautomatically from the\n'Laser power (S)' setting.\nExample: G90 G21 M4"
    } else if idx == 1 {
        "GCode sent after the job ends.\nTypically turns the laser off\nand stops the program.\nExample: M5 M2"
    } else if idx == 2 {
        "Maximum X travel of the machine\nin millimetres.\nUsed to validate job extents."
    } else if idx == 3 {
        "Maximum Y travel of the machine\nin millimetres.\nUsed to validate job extents."
    } else if idx == 4 {
        "Maximum machine speed in mm/min.\nUsed as a ceiling when validating\nthe feedrate setting."
    } else if idx == 5 {
        "Maximum laser power (S-word).\nGRBL default is 1000.\nSet $30 on the controller to match."
    } else if idx == 6 {
        "Laser-on feedrate in mm/min.\nApplied to all G1 cutting moves.\nMust be > 0."
    } else if idx == 7 {
        "Bézier curve tolerance in mm.\nSmaller = more GCode lines,\nbetter curve accuracy.\nTypical: 0.01 – 0.5"
    } else if idx == 8 {
        "Dots-per-inch assumed for SVG\npixel / point / pica units.\nStandard web DPI is 96."
    } else if idx == 9 {
        "Laser power written into the\nbegin sequence (S word).\nRange: 0 – Max laser power."
    } else if idx == 10 {
        "X offset in mm applied to the\nwhole job origin.\n0 = start at machine origin."
    } else if idx == 11 {
        "Y offset in mm applied to the\nwhole job origin.\n0 = start at machine origin."
    } else if idx == 12 {
        "Emit G2/G3 arc commands instead\nof linearising curves.\nRequires GRBL firmware support.\nToggle with Enter or Space."
    } else if idx == 13 {
        "Prepend line numbers (N-words)\nto every GCode line.\nToggle with Enter or Space."
    } else if idx == 14 {
        "Append XOR checksums to every\nGCode line.\nToggle with Enter or Space."
    } else {
        ""
    }
}

/// The keys on the settings tab.
pub fn settings_hint(app: &App) -> (r: Row)
    ensures
        r@ == (if app.config.settings_edit_buf is Some {
            view::single(Tone::Warn, " Enter:save  Esc:cancel  Backspace:delete"@)
        } else {
            view::single(Tone::Warn, " ↑↓:navigate  Enter/e:edit  Space:toggle  r:reset"@)
        }),
{
    if app.config.settings_edit_buf.is_some() {
        Row::of(Tone::Warn, " Enter:save  Esc:cancel  Backspace:delete")
    } else {
        Row::of(Tone::Warn, " ↑↓:navigate  Enter/e:edit  Space:toggle  r:reset")
    }
}

/// What the selected field is for, line by line.
pub fn render_settings_help(app: &App) -> (r: Vec<String>)
    ensures
        text::texts(r@) == text::lines(description(app.config.settings_selected as int)),
{
    text::lines_of(field_description(app.config.settings_selected))
}

/// Each field is shown by its name and its value; the one that is edited shows the
/// text so far instead, and only the selected one stands out.
pub proof fn fields_are_shown_by_name_and_value(app: App, i: int)
    requires
        0 <= i < 15,
    ensures
        ({
            let row = field_row(app, i);
            let name = message::plain(text::left_aligned(settings::name_of_field(i), 22))
                + message::plain(" : "@);
            let selected = i == app.config.settings_selected;
            let edited = app.config.settings_edit_buf is Some;
            &&& row.len() == 1
            &&& !(selected && edited) ==> row[0].text == name + app.config.machine_settings@.field(i)
            &&& selected ==> (app.config.settings_edit_buf matches Some(b) ==> row[0].text == name
                + message::plain(b@) + message::plain("_"@))
            &&& row[0].tone is Title <==> !selected
            &&& row[0].tone is MarkedBold <==> selected && edited
            &&& all_rows(app)[i] == row
            &&& all_rows(app).len() == (if app.config.settings_edit_error is Some {
                16nat
            } else {
                15
            })
        }),
{
}

/// The fields are shown from the first while the selected one has room there, and
/// else so that it is the last that has.
pub proof fn fields_are_shown_up_to_the_selected(selected: usize, height: nat)
    ensures
        selected < height ==> first_row(selected, height) == 0,
        selected >= height ==> first_row(selected, height) + height == selected + 1,
{
}

} // verus!
