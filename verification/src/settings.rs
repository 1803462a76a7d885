//! The settings of the machine and of the conversion, with the editing of their
//! fields as texts.
use vstd::prelude::*;

use crate::binary64::Real;
use crate::message::{Glyph, Message};
use crate::message;
use crate::text;

verus! {

/// All settings that the user can edit.
#[derive(Debug)]
pub struct MachineSettings {
    /// G-code at the start of every job.
    pub begin_sequence: String,
    /// G-code at the end of every job.
    pub end_sequence: String,
    /// Largest X in mm.
    pub max_x_mm: Real,
    /// Largest Y in mm.
    pub max_y_mm: Real,
    /// Largest speed in mm/min.
    pub max_speed: Real,
    /// Largest laser power.
    pub max_laser_power: Real,
    /// Speed of cutting moves in mm/min.
    pub feedrate: Real,
    /// Tolerance for replacing curves by lines, in mm.
    pub tolerance: Real,
    /// Dots per inch assumed for units that are not lengths.
    pub dpi: Real,
    /// Laser power of a job.
    pub laser_power: Real,
    /// Shift of the whole job in X, in mm.
    pub origin_x: Real,
    /// Shift of the whole job in Y, in mm.
    pub origin_y: Real,
    /// Emit arcs instead of replacing them by lines.
    pub circular_interpolation: bool,
    /// Number the lines of a job.
    pub line_numbers: bool,
    /// Append checksums to the lines of a job.
    pub checksums: bool,
    /// Width of the beam in mm; a pixel of an image is as wide.
    pub beam_width: Real,
}

/// The settings, with texts by their characters.
pub struct Settings {
    /// G-code at the start of every job.
    pub begin_sequence: Seq<char>,
    /// G-code at the end of every job.
    pub end_sequence: Seq<char>,
    /// Largest X in mm.
    pub max_x_mm: Real,
    /// Largest Y in mm.
    pub max_y_mm: Real,
    /// Largest speed in mm/min.
    pub max_speed: Real,
    /// Largest laser power.
    pub max_laser_power: Real,
    /// Speed of cutting moves in mm/min.
    pub feedrate: Real,
    /// Tolerance for replacing curves by lines, in mm.
    pub tolerance: Real,
    /// Dots per inch assumed for units that are not lengths.
    pub dpi: Real,
    /// Laser power of a job.
    pub laser_power: Real,
    /// Shift of the whole job in X, in mm.
    pub origin_x: Real,
    /// Shift of the whole job in Y, in mm.
    pub origin_y: Real,
    /// Emit arcs instead of replacing them by lines.
    pub circular_interpolation: bool,
    /// Number the lines of a job.
    pub line_numbers: bool,
    /// Append checksums to the lines of a job.
    pub checksums: bool,
    /// Width of the beam in mm; a pixel of an image is as wide.
    pub beam_width: Real,
}

impl View for MachineSettings {
    type V = Settings;

    open spec fn view(&self) -> Settings {
        Settings {
            begin_sequence: self.begin_sequence@,
            end_sequence: self.end_sequence@,
            max_x_mm: self.max_x_mm,
            max_y_mm: self.max_y_mm,
            max_speed: self.max_speed,
            max_laser_power: self.max_laser_power,
            feedrate: self.feedrate,
            tolerance: self.tolerance,
            dpi: self.dpi,
            laser_power: self.laser_power,
            origin_x: self.origin_x,
            origin_y: self.origin_y,
            circular_interpolation: self.circular_interpolation,
            line_numbers: self.line_numbers,
            checksums: self.checksums,
            beam_width: self.beam_width,
        }
    }
}

impl Clone for MachineSettings {
    fn clone(&self) -> (r: MachineSettings)
        ensures
            r@ == self@,
    {
        MachineSettings {
            begin_sequence: self.begin_sequence.clone(),
            end_sequence: self.end_sequence.clone(),
            max_x_mm: self.max_x_mm,
            max_y_mm: self.max_y_mm,
            max_speed: self.max_speed,
            max_laser_power: self.max_laser_power,
            feedrate: self.feedrate,
            tolerance: self.tolerance,
            dpi: self.dpi,
            laser_power: self.laser_power,
            origin_x: self.origin_x,
            origin_y: self.origin_y,
            circular_interpolation: self.circular_interpolation,
            line_numbers: self.line_numbers,
            checksums: self.checksums,
            beam_width: self.beam_width,
        }
    }
}

/// The settings to start with.
pub open spec fn default_settings() -> Settings {
    Settings {
        begin_sequence: "G90 G21 M4"@,
        end_sequence: "M5 M2"@,
        max_x_mm: Real { bits: 0x4062_c000_0000_0000 },
        max_y_mm: Real { bits: 0x4062_c000_0000_0000 },
        max_speed: Real { bits: 0x40c3_8800_0000_0000 },
        max_laser_power: Real { bits: 0x408f_4000_0000_0000 },
        feedrate: Real { bits: 0x40a7_7000_0000_0000 },
        tolerance: Real { bits: 0x3fb9_9999_9999_999a },
        dpi: Real { bits: 0x4058_0000_0000_0000 },
        laser_power: Real { bits: 0x408f_4000_0000_0000 },
        origin_x: Real::spec_zero(),
        origin_y: Real::spec_zero(),
        circular_interpolation: false,
        line_numbers: false,
        checksums: false,
        beam_width: Real { bits: 0x3fb9_9999_9999_999a },
    }
}

impl Default for MachineSettings {
    /// A work area of 150 mm by 150 mm, 10000 mm/min and power 1000 at most;
    /// 3000 mm/min, a tolerance of a tenth of a millimetre, 96 dots per inch and
    /// power 1000 for a job; a beam of a tenth of a millimetre.
    fn default() -> (r: MachineSettings)
        ensures
            r@ == default_settings(),
    {
        MachineSettings {
            begin_sequence: "G90 G21 M4".to_owned(),
            end_sequence: "M5 M2".to_owned(),
            max_x_mm: Real { bits: 0x4062_c000_0000_0000 },
            max_y_mm: Real { bits: 0x4062_c000_0000_0000 },
            max_speed: Real { bits: 0x40c3_8800_0000_0000 },
            max_laser_power: Real { bits: 0x408f_4000_0000_0000 },
            feedrate: Real { bits: 0x40a7_7000_0000_0000 },
            tolerance: Real { bits: 0x3fb9_9999_9999_999a },
            dpi: Real { bits: 0x4058_0000_0000_0000 },
            laser_power: Real { bits: 0x408f_4000_0000_0000 },
            origin_x: Real::zero(),
            origin_y: Real::zero(),
            circular_interpolation: false,
            line_numbers: false,
            checksums: false,
            beam_width: Real { bits: 0x3fb9_9999_9999_999a },
        }
    }
}

// ── Fields ────────────────────────────────────────────────────────────────────

/// The number of fields.
pub const FIELD_COUNT: usize = 15;

/// The field with the shift of the job in X.
pub const ORIGIN_X: usize = 10;

/// The field with the shift of the job in Y.
pub const ORIGIN_Y: usize = 11;

/// The first of the fields that are switches; all fields behind it are, too.
pub const FIRST_SWITCH: usize = 12;

/// The name of a field.
pub open spec fn name_of_field(idx: int) -> Seq<char> {
    if idx == 0 {
        "Begin sequence"@
    } else if idx == 1 {
        "End sequence"@
    } else if idx == 2 {
        "Max X (mm)"@
    } else if idx == 3 {
        "Max Y (mm)"@
    } else if idx == 4 {
        "Max speed (mm/min)"@
    } else if idx == 5 {
        "Max laser power (S)"@
    } else if idx == 6 {
        "Feedrate (mm/min)"@
    } else if idx == 7 {
        "Tolerance (mm)"@
    } else if idx == 8 {
        "DPI"@
    } else if idx == 9 {
        "Laser power (S)"@
    } else if idx == 10 {
        "Origin X (mm)"@
    } else if idx == 11 {
        "Origin Y (mm)"@
    } else if idx == 12 {
        "Circular interpolation"@
    } else if idx == 13 {
        "Line numbers"@
    } else if idx == 14 {
        "Checksums"@
    } else {
        ""@
    }
}

/// The text of a switch.
pub open spec fn switch_text(on: bool) -> Seq<char> {
    if on {
        "true"@
    } else {
        "false"@
    }
}

/// Whether a text turns a switch on.
pub open spec fn means_on(s: Seq<char>) -> bool {
    let t = text::lower(s);
    t == "true"@ || t == "1"@ || t == "yes"@
}

impl Settings {
    /// The value of a field as an editable text.
    pub open spec fn field(self, idx: int) -> Seq<Glyph> {
        if idx == 0 {
            message::plain(self.begin_sequence)
        } else if idx == 1 {
            message::plain(self.end_sequence)
        } else if idx == 2 {
            message::exact(self.max_x_mm, 1)
        } else if idx == 3 {
            message::exact(self.max_y_mm, 1)
        } else if idx == 4 {
            message::exact(self.max_speed, 0)
        } else if idx == 5 {
            message::exact(self.max_laser_power, 0)
        } else if idx == 6 {
            message::exact(self.feedrate, 0)
        } else if idx == 7 {
            message::exact(self.tolerance, 4)
        } else if idx == 8 {
            message::exact(self.dpi, 1)
        } else if idx == 9 {
            message::exact(self.laser_power, 0)
        } else if idx == 10 {
            message::exact(self.origin_x, 1)
        } else if idx == 11 {
            message::exact(self.origin_y, 1)
        } else if idx == 12 {
            message::plain(switch_text(self.circular_interpolation))
        } else if idx == 13 {
            message::plain(switch_text(self.line_numbers))
        } else if idx == 14 {
            message::plain(switch_text(self.checksums))
        } else {
            Seq::empty()
        }
    }

    /// The settings with a number field set.
    pub open spec fn with_number(self, idx: int, v: Real) -> Settings {
        if idx == 2 {
            Settings { max_x_mm: v, ..self }
        } else if idx == 3 {
            Settings { max_y_mm: v, ..self }
        } else if idx == 4 {
            Settings { max_speed: v, ..self }
        } else if idx == 5 {
            Settings { max_laser_power: v, ..self }
        } else if idx == 6 {
            Settings { feedrate: v, ..self }
        } else if idx == 7 {
            Settings { tolerance: v, ..self }
        } else if idx == 8 {
            Settings { dpi: v, ..self }
        } else if idx == 9 {
            Settings { laser_power: v, ..self }
        } else if idx == 10 {
            Settings { origin_x: v, ..self }
        } else {
            Settings { origin_y: v, ..self }
        }
    }

    /// The settings with a switch set.
    pub open spec fn with_switch(self, idx: int, on: bool) -> Settings {
        if idx == 12 {
            Settings { circular_interpolation: on, ..self }
        } else if idx == 13 {
            Settings { line_numbers: on, ..self }
        } else {
            Settings { checksums: on, ..self }
        }
    }
}

/// The settings after a text was entered into a field, and the complaint if it
/// was refused.  `number` is what reading the trimmed text as a number gave.
pub open spec fn entered(
    s: Settings,
    idx: int,
    raw: Seq<char>,
    number: Result<Real, Seq<char>>,
) -> (Settings, Option<Seq<char>>) {
    let t = text::trimmed(raw);
    if idx == 0 {
        (Settings { begin_sequence: t, ..s }, None)
    } else if idx == 1 {
        (Settings { end_sequence: t, ..s }, None)
    } else if 2 <= idx <= 11 {
        match number {
            Ok(v) => (s.with_number(idx, v), None),
            Err(e) => (s, Some(e)),
        }
    } else if 12 <= idx <= 14 {
        (s.with_switch(idx, means_on(t)), None)
    } else {
        (s, Some("Unknown field"@))
    }
}

/// A number that was read or the complaint about it, by its characters.
pub open spec fn reading(number: Result<Real, String>) -> Result<Real, Seq<char>> {
    match number {
        Ok(v) => Ok(v),
        Err(e) => Err(e@),
    }
}

/// The complaint that an answer holds.
pub open spec fn complaint(r: Result<(), String>) -> Option<Seq<char>> {
    match r {
        Ok(_) => None,
        Err(e) => Some(e@),
    }
}

fn turns_on(s: &str) -> (r: bool)
    ensures
        r == means_on(s@),
{
    let t = text::to_lower(s);
    text::same(t.as_str(), "true") || text::same(t.as_str(), "1") || text::same(t.as_str(), "yes")
}

fn switch_message(on: bool) -> (r: Message)
    ensures
        r@ == message::plain(switch_text(on)),
{
    if on {
        Message::text("true")
    } else {
        Message::text("false")
    }
}

impl MachineSettings {
    /// The names of all fields, in order.
    pub const FIELD_NAMES: [&'static str; 15] = [
        "Begin sequence",
        "End sequence",
        "Max X (mm)",
        "Max Y (mm)",
        "Max speed (mm/min)",
        "Max laser power (S)",
        "Feedrate (mm/min)",
        "Tolerance (mm)",
        "DPI",
        "Laser power (S)",
        "Origin X (mm)",
        "Origin Y (mm)",
        "Circular interpolation",
        "Line numbers",
        "Checksums",
    ];

    /// The number of fields.
    pub fn field_count() -> (r: usize)
        ensures
            r == FIELD_COUNT,
    {
        FIELD_COUNT
    }

    /// The name of a field.
    pub fn field_name(idx: usize) -> (r: &'static str)
        ensures
            r@ == name_of_field(idx as int),
    {
        if idx < FIELD_COUNT {
            Self::FIELD_NAMES[idx]
        } else {
            ""
        }
    }

    /// The value of a field as an editable text.
    pub fn field_value(&self, idx: usize) -> (r: Message)
        ensures
            r@ == self@.field(idx as int),
    {
        if idx == 0 {
            Message::text(self.begin_sequence.as_str())
        } else if idx == 1 {
            Message::text(self.end_sequence.as_str())
        } else if idx == 2 {
            number_message(self.max_x_mm, 1)
        } else if idx == 3 {
            number_message(self.max_y_mm, 1)
        } else if idx == 4 {
            number_message(self.max_speed, 0)
        } else if idx == 5 {
            number_message(self.max_laser_power, 0)
        } else if idx == 6 {
            number_message(self.feedrate, 0)
        } else if idx == 7 {
            number_message(self.tolerance, 4)
        } else if idx == 8 {
            number_message(self.dpi, 1)
        } else if idx == 9 {
            number_message(self.laser_power, 0)
        } else if idx == 10 {
            number_message(self.origin_x, 1)
        } else if idx == 11 {
            number_message(self.origin_y, 1)
        } else if idx == 12 {
            switch_message(self.circular_interpolation)
        } else if idx == 13 {
            switch_message(self.line_numbers)
        } else if idx == 14 {
            switch_message(self.checksums)
        } else {
            Message::new()
        }
    }

    /// Enter a text into a field.  `number` is what reading the trimmed text as
    /// a number gave; it counts for the number fields alone.  A refused text
    /// changes nothing.
    pub fn set_field(&mut self, idx: usize, raw: &str, number: Result<Real, String>) -> (r: Result<
        (),
        String,
    >)
        ensures
            (final(self)@, complaint(r)) == entered(
                old(self)@,
                idx as int,
                raw@,
                reading(number),
            ),
    {
        let s = text::trim(raw);
        if idx == 0 {
            self.begin_sequence = s;
            return Ok(());
        }
        if idx == 1 {
            self.end_sequence = s;
            return Ok(());
        }
        if idx <= 11 {
            let v = match number {
                Ok(v) => v,
                Err(e) => {
                    return Err(e);
                },
            };
            if idx == 2 {
                self.max_x_mm = v;
            } else if idx == 3 {
                self.max_y_mm = v;
            } else if idx == 4 {
                self.max_speed = v;
            } else if idx == 5 {
                self.max_laser_power = v;
            } else if idx == 6 {
                self.feedrate = v;
            } else if idx == 7 {
                self.tolerance = v;
            } else if idx == 8 {
                self.dpi = v;
            } else if idx == 9 {
                self.laser_power = v;
            } else if idx == 10 {
                self.origin_x = v;
            } else {
                self.origin_y = v;
            }
            return Ok(());
        }
        if idx <= 14 {
            let on = turns_on(s.as_str());
            if idx == 12 {
                self.circular_interpolation = on;
            } else if idx == 13 {
                self.line_numbers = on;
            } else {
                self.checksums = on;
            }
            return Ok(());
        }
        Err("Unknown field".to_owned())
    }

    /// The begin sequence without its S words.
    ///
    /// The laser power is appended as an S word of its own when a job is made,
    /// so that it always comes from the laser power setting.
    pub fn sanitised_begin_sequence(&self) -> (r: String)
        ensures
            r@ == sanitised(self@.begin_sequence),
    {
        let words = text::words_of(self.begin_sequence.as_str());
        let ghost all = text::texts(words@);
        let mut kept: Vec<String> = Vec::new();
        let mut i: usize = 0;
        assert(all.take(0) == Seq::<Seq<char>>::empty());
        assert(text::texts(kept@) == Seq::<Seq<char>>::empty());
        while i < words.len()
            invariant
                i <= words@.len(),
                all == text::texts(words@),
                text::texts(kept@) == without_s_words(all.take(i as int)),
            decreases words@.len() - i,
        {
            assert(all.take(i + 1).drop_last() == all.take(i as int));
            assert(all.take(i + 1).last() == words@[i as int]@);
            if !s_word(words[i].as_str()) {
                let ghost before = kept@;
                let word = words[i].clone();
                kept.push(word);
                assert(text::texts(kept@) == text::texts(before).push(word@));
            }
            i = i + 1;
        }
        assert(all.take(i as int) == all);
        text::join_with(&kept, " ")
    }
}

fn number_message(v: Real, places: u8) -> (r: Message)
    ensures
        r@ == message::exact(v, places),
{
    let r = Message::new().then_real(v, places);
    assert(Seq::<Glyph>::empty() + message::exact(v, places) == message::exact(v, places));
    r
}

// ── S words ───────────────────────────────────────────────────────────────────

/// An S word: the letter, in either case, and a number, which is digits with at
/// most one point.
pub open spec fn is_s_word(token: Seq<char>) -> bool {
    token.len() > 0 && (token[0] == 'S' || token[0] == 's') && text::is_mantissa(token.skip(1))
}

pub open spec fn without_s_words(words: Seq<Seq<char>>) -> Seq<Seq<char>>
    decreases words.len(),
{
    if words.len() == 0 {
        seq![]
    } else if is_s_word(words.last()) {
        without_s_words(words.drop_last())
    } else {
        without_s_words(words.drop_last()).push(words.last())
    }
}

/// The words of a sequence that are not S words, with single spaces between.
pub open spec fn sanitised(sequence: Seq<char>) -> Seq<char> {
    text::join(without_s_words(text::words(sequence)), " "@)
}

fn s_word(token: &str) -> (r: bool)
    ensures
        r == is_s_word(token@),
{
    let v = text::to_chars(token);
    if v.len() == 0 || (v[0] != 'S' && v[0] != 's') {
        return false;
    }
    assert(token@.skip(1) == token@.subrange(1, token@.len() as int));
    text::is_unsigned_number(text::string_of(&v, 1, v.len()).as_str())
}

// ── Laws ──────────────────────────────────────────────────────────────────────

/// A refused text changes nothing, and only a number field that got no number,
/// or a field that does not exist, refuses one.
pub proof fn refused_entry_changes_nothing(
    s: Settings,
    idx: int,
    raw: Seq<char>,
    number: Result<Real, Seq<char>>,
)
    requires
        0 <= idx,
    ensures
        entered(s, idx, raw, number).1 is Some ==> entered(s, idx, raw, number).0 == s,
        entered(s, idx, raw, number).1 is Some <==> (2 <= idx <= 11 && number is Err) || idx
            >= FIELD_COUNT,
{
}

/// The number of decimal places that a number field shows.
pub open spec fn places(idx: int) -> u8 {
    if idx == 7 {
        4
    } else if idx == 4 || idx == 5 || idx == 6 || idx == 9 {
        0
    } else {
        1
    }
}

/// What was entered into a field is what the field shows afterwards: the trimmed
/// text, the number, or the position of the switch.
pub proof fn entered_value_is_shown(
    s: Settings,
    idx: int,
    raw: Seq<char>,
    number: Result<Real, Seq<char>>,
)
    requires
        0 <= idx < FIELD_COUNT,
        entered(s, idx, raw, number).1 is None,
    ensures
        idx < 2 ==> entered(s, idx, raw, number).0.field(idx) == message::plain(text::trimmed(raw)),
        2 <= idx < FIRST_SWITCH ==> entered(s, idx, raw, number).0.field(idx) == message::exact(
            number->Ok_0,
            places(idx),
        ),
        idx >= FIRST_SWITCH ==> entered(s, idx, raw, number).0.field(idx) == message::plain(
            switch_text(means_on(text::trimmed(raw))),
        ),
{
}

/// Entering what a field shows is accepted and leaves all settings as they were:
/// the field's own text without white space around it, its own number, or the
/// position of its own switch.
pub proof fn shown_value_is_kept(
    s: Settings,
    idx: int,
    raw: Seq<char>,
    number: Result<Real, Seq<char>>,
)
    requires
        0 <= idx < FIELD_COUNT,
        idx < 2 ==> message::plain(raw) == s.field(idx) && text::trimmed(raw) == raw,
        2 <= idx < FIRST_SWITCH ==> number is Ok && message::exact(number->Ok_0, places(idx))
            == s.field(idx),
        idx >= FIRST_SWITCH ==> message::plain(raw) == s.field(idx),
    ensures
        entered(s, idx, raw, number) == (s, None::<Seq<char>>),
        forall|j: int| #[trigger] entered(s, idx, raw, number).0.field(j) == s.field(j),
{
    if idx < 2 {
        message::lemma_plain_is_injective(
            raw,
            if idx == 0 {
                s.begin_sequence
            } else {
                s.end_sequence
            },
        );
    } else if idx >= FIRST_SWITCH {
        let on = if idx == 12 {
            s.circular_interpolation
        } else if idx == 13 {
            s.line_numbers
        } else {
            s.checksums
        };
        message::lemma_plain_is_injective(raw, switch_text(on));
        shown_switch_is_kept(s, idx, on);
    } else {
        let own = s.field(idx);
        assert(message::exact(number->Ok_0, places(idx))[0] == own[0]);
    }
}

/// A way of writing a number with some decimal places.
pub type Writing = spec_fn(Real, u8) -> Seq<char>;

/// A way of reading a number.
pub type Reading = spec_fn(Seq<char>) -> Result<Real, Seq<char>>;

impl Settings {
    /// The number in a field.
    pub open spec fn number(self, idx: int) -> Real {
        if idx == 2 {
            self.max_x_mm
        } else if idx == 3 {
            self.max_y_mm
        } else if idx == 4 {
            self.max_speed
        } else if idx == 5 {
            self.max_laser_power
        } else if idx == 6 {
            self.feedrate
        } else if idx == 7 {
            self.tolerance
        } else if idx == 8 {
            self.dpi
        } else if idx == 9 {
            self.laser_power
        } else if idx == 10 {
            self.origin_x
        } else {
            self.origin_y
        }
    }

    /// The position of a switch.
    pub open spec fn switch(self, idx: int) -> bool {
        if idx == 12 {
            self.circular_interpolation
        } else if idx == 13 {
            self.line_numbers
        } else {
            self.checksums
        }
    }

    /// The value of a field in characters, its number written out.
    pub open spec fn written(self, idx: int, write: Writing) -> Seq<char> {
        if idx == 0 {
            self.begin_sequence
        } else if idx == 1 {
            self.end_sequence
        } else if idx < FIRST_SWITCH {
            write(self.number(idx), places(idx))
        } else {
            switch_text(self.switch(idx))
        }
    }
}

/// The characters of a field are those of its text, with its number written out
/// to the decimal places that it shows.
pub proof fn fields_are_written_as_shown(s: Settings, idx: int, write: Writing)
    requires
        0 <= idx < FIELD_COUNT,
    ensures
        if 2 <= idx < FIRST_SWITCH {
            s.field(idx) == message::exact(s.number(idx), places(idx))
        } else {
            s.field(idx) == message::plain(s.written(idx, write))
        },
{
}

/// Entering the characters that a field shows is accepted; the field shows the
/// same afterwards, and so do all others.  It holds of any way of writing and
/// reading numbers by which a written number can be read and is written the same
/// again, and of sequences without white space around them.
pub proof fn shown_characters_are_kept(
    s: Settings,
    idx: int,
    write: Writing,
    read: Reading,
)
    requires
        0 <= idx < FIELD_COUNT,
        text::trimmed(s.begin_sequence) == s.begin_sequence,
        text::trimmed(s.end_sequence) == s.end_sequence,
        2 <= idx < FIRST_SWITCH ==> ({
            let v = s.written(idx, write);
            read(text::trimmed(v)) is Ok && write(read(text::trimmed(v))->Ok_0, places(idx)) == v
        }),
    ensures
        ({
            let v = s.written(idx, write);
            let (after, complaint) = entered(s, idx, v, read(text::trimmed(v)));
            &&& complaint is None
            &&& after.written(idx, write) == v
            &&& forall|j: int|
                0 <= j < FIELD_COUNT && j != idx ==> #[trigger] after.written(j, write)
                    == s.written(j, write)
        }),
{
    if idx >= FIRST_SWITCH {
        shown_switch_is_kept(s, idx, s.switch(idx));
    }
}

/// Entering a text into one field leaves the others as they are.
pub proof fn entry_leaves_other_fields(
    s: Settings,
    idx: int,
    raw: Seq<char>,
    number: Result<Real, Seq<char>>,
    other: int,
)
    requires
        0 <= idx,
        0 <= other,
        idx != other,
    ensures
        entered(s, idx, raw, number).0.field(other) == s.field(other),
{
}

/// A switch that is entered as it is shown stays as it is.
pub proof fn shown_switch_is_kept(s: Settings, idx: int, on: bool)
    requires
        FIRST_SWITCH <= idx < FIELD_COUNT,
    ensures
        means_on(text::trimmed(switch_text(on))) == on,
        s.with_switch(idx, on).field(idx) == message::plain(switch_text(on)),
{
    reveal_strlit("true");
    reveal_strlit("false");
    reveal_strlit("1");
    reveal_strlit("yes");
    let t = switch_text(on);
    assert(text::trimmed(t) == t);
    if on {
        assert(text::lower(t) =~= "true"@);
    } else {
        let l = text::lower(t);
        assert(l.len() == 5);
    }
}

/// A sequence of words without white space in them, none of them empty.
pub open spec fn are_words(v: Seq<Seq<char>>) -> bool {
    forall|i: int|
        0 <= i < v.len() ==> (#[trigger] v[i]).len() > 0 && text::word_len(v[i]) == v[i].len()
}

proof fn lemma_word_then_space(a: Seq<char>, b: Seq<char>)
    requires
        b.len() > 0,
        text::is_space(b[0]),
    ensures
        text::word_len(a + b) == text::word_len(a),
    decreases a.len(),
{
    if a.len() == 0 {
        assert(a + b == b);
    } else {
        assert((a + b)[0] == a[0]);
        assert((a + b).skip(1) == a.skip(1) + b);
        lemma_word_then_space(a.skip(1), b);
    }
}

proof fn lemma_words_of_words(s: Seq<char>)
    ensures
        are_words(text::words(s)),
    decreases s.len(),
{
    if s.len() > 0 {
        if text::is_space(s[0]) {
            lemma_words_of_words(s.skip(1));
        } else {
            let n = text::word_len(s);
            text::lemma_word_len(s);
            lemma_words_of_words(s.skip(n));
            lemma_whole_word(s.take(n));
            let rest = text::words(s.skip(n));
            let all = seq![s.take(n)] + rest;
            assert(text::words(s) == all);
            assert forall|i: int| 0 <= i < all.len() implies (#[trigger] all[i]).len() > 0
                && text::word_len(all[i]) == all[i].len() by {
                if i > 0 {
                    assert(all[i] == rest[i - 1]);
                }
            }
        }
    }
}

proof fn lemma_whole_word(s: Seq<char>)
    requires
        forall|i: int| 0 <= i < s.len() ==> !text::is_space(#[trigger] s[i]),
    ensures
        text::word_len(s) == s.len(),
    decreases s.len(),
{
    if s.len() > 0 {
        let t = s.skip(1);
        assert forall|i: int| 0 <= i < t.len() implies !text::is_space(#[trigger] t[i]) by {
            assert(t[i] == s[i + 1]);
        }
        lemma_whole_word(t);
    }
}

proof fn lemma_single_word(w: Seq<char>)
    requires
        w.len() > 0,
        text::word_len(w) == w.len(),
    ensures
        text::words(w) == seq![w],
{
    let none = Seq::<char>::empty();
    assert(w.take(w.len() as int) == w);
    assert(w.skip(w.len() as int) == none);
    assert(text::words(none) == Seq::<Seq<char>>::empty());
    assert(seq![w] + Seq::<Seq<char>>::empty() == seq![w]);
}

proof fn lemma_words_push(a: Seq<char>, w: Seq<char>)
    requires
        w.len() > 0,
        text::word_len(w) == w.len(),
    ensures
        text::words(a + " "@ + w) == text::words(a).push(w),
    decreases a.len(),
{
    reveal_strlit(" ");
    let tail = " "@ + w;
    assert(a + " "@ + w == a + tail);
    if a.len() == 0 {
        assert(a + tail == tail);
        assert(tail.skip(1) == w);
        lemma_single_word(w);
        assert(text::words(a).push(w) == seq![w]);
    } else {
        assert((a + tail)[0] == a[0]);
        if text::is_space(a[0]) {
            assert((a + tail).skip(1) == a.skip(1) + " "@ + w);
            lemma_words_push(a.skip(1), w);
        } else {
            let n = text::word_len(a);
            text::lemma_word_len(a);
            lemma_word_then_space(a, tail);
            assert((a + tail).take(n) == a.take(n));
            assert((a + tail).skip(n) == a.skip(n) + " "@ + w);
            lemma_words_push(a.skip(n), w);
            assert(seq![a.take(n)] + text::words(a.skip(n)).push(w) == (seq![a.take(n)]
                + text::words(a.skip(n))).push(w));
        }
    }
}

/// Words that are joined by single spaces come apart again.
pub proof fn joined_words_come_apart(v: Seq<Seq<char>>)
    requires
        are_words(v),
    ensures
        text::words(text::join(v, " "@)) == v,
    decreases v.len(),
{
    if v.len() == 0 {
        assert(text::words(text::join(v, " "@)) == v);
    } else if v.len() == 1 {
        let w = v[0];
        lemma_single_word(w);
        assert(v == seq![w]);
    } else {
        joined_words_come_apart(v.drop_last());
        lemma_words_push(text::join(v.drop_last(), " "@), v.last());
        assert(v.drop_last().push(v.last()) == v);
    }
}

proof fn lemma_without_s_words(v: Seq<Seq<char>>)
    ensures
        are_words(v) ==> are_words(without_s_words(v)),
        forall|i: int|
            0 <= i < without_s_words(v).len() ==> !is_s_word(#[trigger] without_s_words(v)[i]),
    decreases v.len(),
{
    if v.len() > 0 {
        lemma_without_s_words(v.drop_last());
        if are_words(v) {
            assert forall|i: int| 0 <= i < v.drop_last().len() implies (#[trigger] v.drop_last()[i]).len()
                > 0 && text::word_len(v.drop_last()[i]) == v.drop_last()[i].len() by {
                assert(v.drop_last()[i] == v[i]);
            }
            assert(v[v.len() - 1] == v.last());
        }
    }
}

proof fn lemma_nothing_to_remove(v: Seq<Seq<char>>)
    requires
        forall|i: int| 0 <= i < v.len() ==> !is_s_word(#[trigger] v[i]),
    ensures
        without_s_words(v) == v,
    decreases v.len(),
{
    if v.len() > 0 {
        assert forall|i: int| 0 <= i < v.drop_last().len() implies !is_s_word(
            #[trigger] v.drop_last()[i],
        ) by {
            assert(v.drop_last()[i] == v[i]);
        }
        lemma_nothing_to_remove(v.drop_last());
        assert(v[v.len() - 1] == v.last());
        assert(v.drop_last().push(v.last()) == v);
    }
}

/// No S word is left in a sanitised sequence, and all other words are, in order.
pub proof fn sanitised_has_no_s_word(sequence: Seq<char>)
    ensures
        text::words(sanitised(sequence)) == without_s_words(text::words(sequence)),
        forall|i: int|
            0 <= i < text::words(sanitised(sequence)).len() ==> !is_s_word(
                #[trigger] text::words(sanitised(sequence))[i],
            ),
{
    lemma_words_of_words(sequence);
    lemma_without_s_words(text::words(sequence));
    joined_words_come_apart(without_s_words(text::words(sequence)));
}

/// Sanitising twice is sanitising once.
pub proof fn sanitising_is_idempotent(sequence: Seq<char>)
    ensures
        sanitised(sanitised(sequence)) == sanitised(sequence),
{
    sanitised_has_no_s_word(sequence);
    lemma_nothing_to_remove(text::words(sanitised(sequence)));
}

/// A number is stored in the setting that its field stands for, and in no other.
pub proof fn numbers_are_stored_in_their_setting(s: Settings, idx: int, v: Real, raw: Seq<char>)
    requires
        2 <= idx <= 11,
    ensures
        ({
            let after = entered(s, idx, raw, Ok(v)).0;
            &&& after.max_x_mm == (if idx == 2 { v } else { s.max_x_mm })
            &&& after.max_y_mm == (if idx == 3 { v } else { s.max_y_mm })
            &&& after.max_speed == (if idx == 4 { v } else { s.max_speed })
            &&& after.max_laser_power == (if idx == 5 { v } else { s.max_laser_power })
            &&& after.feedrate == (if idx == 6 { v } else { s.feedrate })
            &&& after.tolerance == (if idx == 7 { v } else { s.tolerance })
            &&& after.dpi == (if idx == 8 { v } else { s.dpi })
            &&& after.laser_power == (if idx == 9 { v } else { s.laser_power })
            &&& after.origin_x == (if idx == 10 { v } else { s.origin_x })
            &&& after.origin_y == (if idx == 11 { v } else { s.origin_y })
            &&& after.begin_sequence == s.begin_sequence && after.end_sequence == s.end_sequence
            &&& after.circular_interpolation == s.circular_interpolation
            &&& after.line_numbers == s.line_numbers && after.checksums == s.checksums
            &&& after.beam_width == s.beam_width
        }),
{
}

/// A text and a switch are stored in the setting that their field stands for, and
/// in no other.
pub proof fn texts_and_switches_are_stored_in_their_setting(
    s: Settings,
    idx: int,
    raw: Seq<char>,
    number: Result<Real, Seq<char>>,
)
    requires
        idx == 0 || idx == 1 || 12 <= idx <= 14,
    ensures
        ({
            let after = entered(s, idx, raw, number).0;
            let on = means_on(text::trimmed(raw));
            &&& after.begin_sequence == (if idx == 0 { text::trimmed(raw) } else { s.begin_sequence })
            &&& after.end_sequence == (if idx == 1 { text::trimmed(raw) } else { s.end_sequence })
            &&& after.circular_interpolation == (if idx == 12 { on } else { s.circular_interpolation })
            &&& after.line_numbers == (if idx == 13 { on } else { s.line_numbers })
            &&& after.checksums == (if idx == 14 { on } else { s.checksums })
            &&& after.max_x_mm == s.max_x_mm && after.max_y_mm == s.max_y_mm
            &&& after.max_speed == s.max_speed && after.max_laser_power == s.max_laser_power
            &&& after.feedrate == s.feedrate && after.laser_power == s.laser_power
            &&& after.origin_x == s.origin_x && after.origin_y == s.origin_y
            &&& after.tolerance == s.tolerance && after.dpi == s.dpi
        }),
{
}

/// The field of a name shows the setting of that name.
pub proof fn fields_show_what_they_are_named_for(s: Settings)
    ensures
        name_of_field(0) == "Begin sequence"@ && s.field(0) == message::plain(s.begin_sequence),
        name_of_field(1) == "End sequence"@ && s.field(1) == message::plain(s.end_sequence),
        name_of_field(2) == "Max X (mm)"@ && s.field(2) == message::exact(s.max_x_mm, 1),
        name_of_field(3) == "Max Y (mm)"@ && s.field(3) == message::exact(s.max_y_mm, 1),
        name_of_field(4) == "Max speed (mm/min)"@ && s.field(4) == message::exact(s.max_speed, 0),
        name_of_field(5) == "Max laser power (S)"@ && s.field(5) == message::exact(
            s.max_laser_power,
            0,
        ),
        name_of_field(6) == "Feedrate (mm/min)"@ && s.field(6) == message::exact(s.feedrate, 0),
        name_of_field(7) == "Tolerance (mm)"@ && s.field(7) == message::exact(s.tolerance, 4),
        name_of_field(8) == "DPI"@ && s.field(8) == message::exact(s.dpi, 1),
        name_of_field(9) == "Laser power (S)"@ && s.field(9) == message::exact(s.laser_power, 0),
        name_of_field(10) == "Origin X (mm)"@ && s.field(10) == message::exact(s.origin_x, 1),
        name_of_field(11) == "Origin Y (mm)"@ && s.field(11) == message::exact(s.origin_y, 1),
        name_of_field(12) == "Circular interpolation"@ && s.field(12) == message::plain(
            if s.circular_interpolation { "true"@ } else { "false"@ },
        ),
        name_of_field(13) == "Line numbers"@ && s.field(13) == message::plain(
            if s.line_numbers { "true"@ } else { "false"@ },
        ),
        name_of_field(14) == "Checksums"@ && s.field(14) == message::plain(
            if s.checksums { "true"@ } else { "false"@ },
        ),
        ORIGIN_X == 10 && ORIGIN_Y == 11 && FIRST_SWITCH == 12 && FIELD_COUNT == 15,
{
}

/// A switch is turned on by three words, in either case, and by nothing else.
pub proof fn three_words_turn_a_switch_on(s: Seq<char>)
    ensures
        means_on(s) <==> {
            ||| s.len() == 1 && s[0] == '1'
            ||| s.len() == 3 && (s[0] == 'y' || s[0] == 'Y') && (s[1] == 'e' || s[1] == 'E') && (s[2]
                == 's' || s[2] == 'S')
            ||| s.len() == 4 && (s[0] == 't' || s[0] == 'T') && (s[1] == 'r' || s[1] == 'R') && (s[2]
                == 'u' || s[2] == 'U') && (s[3] == 'e' || s[3] == 'E')
        },
{
    reveal_strlit("true");
    reveal_strlit("1");
    reveal_strlit("yes");
    let t = text::lower(s);
    assert(t.len() == s.len());
    assert forall|i: int| 0 <= i < s.len() implies t[i] == text::lower_char(s[i]) by {}
    if means_on(s) {
        if t == "true"@ {
            assert(t[0] == 't' && t[1] == 'r' && t[2] == 'u' && t[3] == 'e');
        } else if t == "1"@ {
            assert(t[0] == '1');
        } else {
            assert(t[0] == 'y' && t[1] == 'e' && t[2] == 's');
        }
    }
    if s.len() == 1 && s[0] == '1' {
        assert(t =~= "1"@);
    }
    if s.len() == 3 && (s[0] == 'y' || s[0] == 'Y') && (s[1] == 'e' || s[1] == 'E') && (s[2] == 's'
        || s[2] == 'S') {
        assert(t =~= "yes"@);
    }
    if s.len() == 4 && (s[0] == 't' || s[0] == 'T') && (s[1] == 'r' || s[1] == 'R') && (s[2] == 'u'
        || s[2] == 'U') && (s[3] == 'e' || s[3] == 'E') {
        assert(t =~= "true"@);
    }
}

/// A number is a whole one: its significand, scaled by two to the exponent.
pub open spec fn is_whole(r: Real, n: int, exponent: int, scale: int) -> bool {
    &&& r.bits as int / 0x10_0000_0000_0000 == 1023 + exponent
    &&& (r.bits as int % 0x10_0000_0000_0000 + 0x10_0000_0000_0000) * scale == n
        * 0x10_0000_0000_0000
}

/// The settings to start with: a square of 150 mm, 10000 mm/min and power 1000 at
/// most; a job at 3000 mm/min with all the power, 96 dots per inch, at the origin,
/// with every switch off.
pub proof fn the_first_settings_are_moderate()
    ensures
        ({
            let s = default_settings();
            &&& is_whole(s.max_x_mm, 150, 7, 128) && s.max_y_mm == s.max_x_mm
            &&& is_whole(s.max_speed, 10000, 13, 8192)
            &&& is_whole(s.max_laser_power, 1000, 9, 512) && s.laser_power == s.max_laser_power
            &&& is_whole(s.feedrate, 3000, 11, 2048)
            &&& is_whole(s.dpi, 96, 6, 64)
            &&& s.tolerance.below(Real { bits: 0x3fc0_0000_0000_0000 }) && (Real {
                bits: 0x3fb0_0000_0000_0000,
            }).below(s.tolerance) && s.beam_width == s.tolerance
            &&& s.origin_x.bits == 0 && s.origin_y.bits == 0
            &&& !s.circular_interpolation && !s.line_numbers && !s.checksums
            &&& s.begin_sequence == "G90 G21 M4"@ && s.end_sequence == "M5 M2"@
        }),
{
}

/// An S word is the letter and a number behind it: the letter alone, another
/// letter, or anything that is no number behind it is none.
pub proof fn an_s_word_is_a_letter_and_a_number(c: char, number: Seq<char>)
    ensures
        is_s_word(seq![c] + number) <==> (c == 'S' || c == 's') && text::is_mantissa(number),
        !is_s_word(seq![]),
        number.len() > 0 && text::all_digits(number) ==> is_s_word(seq!['S'] + number),
        !is_s_word(seq!['S']),
{
    assert((seq![c] + number).skip(1) =~= number);
    assert((seq!['S'] + number).skip(1) =~= number);
    if number.len() > 0 && text::all_digits(number) {
        text::digits_are_a_number(number, seq![]);
        assert(number + Seq::<char>::empty() =~= number);
    }
    assert(seq!['S'].skip(1) =~= seq![]);
    text::digits_are_a_number(seq!['0'], seq![]);
}

/// Words that are no S words stay in a sanitised sequence in their order, and S
/// words are left out wherever they stand.
pub proof fn only_s_words_are_left_out(v: Seq<Seq<char>>, w: Seq<char>)
    ensures
        !is_s_word(w) ==> without_s_words(v.push(w)) == without_s_words(v).push(w),
        is_s_word(w) ==> without_s_words(v.push(w)) == without_s_words(v),
        without_s_words(seq![]) == Seq::<Seq<char>>::empty(),
{
    assert(v.push(w).drop_last() =~= v);
}

/// An answer is seen with its reason, and a number that was read as it is.
pub proof fn answers_carry_their_reason(e: String, v: Real)
    ensures
        complaint(Ok(())) is None,
        complaint(Err(e)) == Some(e@),
        reading(Ok(v)) == Ok::<Real, Seq<char>>(v),
        reading(Err(e)) == Err::<Real, Seq<char>>(e@),
{
}

} // verus!
