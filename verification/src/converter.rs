//! The rules that a conversion is held to, and the lines of a job that are worth
//! sending.
use vstd::prelude::*;

use crate::binary64::Real;
use crate::message::{Amount, Glyph, Message};
use crate::message;
use crate::settings::{MachineSettings, Settings};
use crate::settings;
use crate::svg;
use crate::text;
use crate::trace::Extents;
use crate::visitor::ConversionConfig;

verus! {

// ── Errors ────────────────────────────────────────────────────────────────────

/// Why a job was refused, in a form for a popup.
#[derive(Debug)]
pub struct ConversionError {
    /// A summary on one line.
    pub title: String,
    /// The details, on several lines.
    pub body: Message,
}

impl ConversionError {
    /// Title and details in one message.
    pub fn shown(&self) -> (r: Message)
        ensures
            r@ == message::plain(self.title@) + message::plain(": "@) + self.body@,
    {
        Message::text(self.title.as_str()).then_text(": ").followed_by(self.body.clone())
    }
}

/// An error with texts by their characters.
pub open spec fn refusal(r: Result<(), ConversionError>) -> Option<(Seq<char>, Seq<Glyph>)> {
    match r {
        Ok(_) => None,
        Err(e) => Some((e.title@, e.body@)),
    }
}

pub open spec fn messages(v: Seq<Message>) -> Seq<Seq<Glyph>> {
    v.map_values(|m: Message| m@)
}

/// The line if the condition holds, and else nothing.
pub open spec fn when(holds: bool, line: Seq<Glyph>) -> Seq<Seq<Glyph>> {
    if holds {
        seq![line]
    } else {
        seq![]
    }
}

/// Lines under each other.
pub open spec fn stacked(v: Seq<Seq<Glyph>>) -> Seq<Glyph>
    decreases v.len(),
{
    if v.len() == 0 {
        seq![]
    } else if v.len() == 1 {
        v[0]
    } else {
        stacked(v.drop_last()) + message::plain("\n"@) + v.last()
    }
}

fn stack(v: &Vec<Message>) -> (r: Message)
    ensures
        r@ == stacked(messages(v@)),
{
    let ghost all = messages(v@);
    let mut out = Message::new();
    let mut i: usize = 0;
    assert(all.take(0) == Seq::<Seq<Glyph>>::empty());
    while i < v.len()
        invariant
            i <= v@.len(),
            all == messages(v@),
            out@ == stacked(all.take(i as int)),
        decreases v@.len() - i,
    {
        assert(all.take(i + 1).drop_last() == all.take(i as int));
        assert(all.take(i + 1).last() == v@[i as int]@);
        if i > 0 {
            out = out.then_text("\n").followed_by(v[i].clone());
        } else {
            out = v[i].clone();
        }
        i = i + 1;
    }
    assert(all.take(i as int) == all);
    out
}

fn note(problems: &mut Vec<Message>, holds: bool, line: Message)
    ensures
        messages(final(problems)@) == messages(old(problems)@) + when(holds, line@),
{
    let ghost before = problems@;
    let ghost shown = line@;
    if holds {
        problems.push(line);
        assert(messages(problems@) == messages(before) + seq![shown]);
    } else {
        assert(messages(before) + Seq::<Seq<Glyph>>::empty() == messages(before));
    }
}

// ── Settings ──────────────────────────────────────────────────────────────────

/// What is wrong with the settings.
pub open spec fn settings_problems(s: Settings) -> Seq<Seq<Glyph>> {
    let zero = Real::spec_zero();
    when(
        s.feedrate.upto(zero),
        message::plain("• Feedrate must be > 0 mm/min (currently "@) + message::exact(s.feedrate, 0)
            + message::plain(")"@),
    ) + when(
        s.max_speed.below(s.feedrate),
        message::plain("• Feedrate "@) + message::exact(s.feedrate, 0) + message::plain(
            " mm/min exceeds max speed "@,
        ) + message::exact(s.max_speed, 0) + message::plain(" mm/min"@),
    ) + when(
        s.tolerance.upto(zero),
        message::plain("• Tolerance must be > 0 mm (currently "@) + message::exact(s.tolerance, 4)
            + message::plain(")"@),
    ) + when(
        s.dpi.upto(zero),
        message::plain("• DPI must be > 0 (currently "@) + message::exact(s.dpi, 1)
            + message::plain(")"@),
    ) + when(
        s.laser_power.below(zero) || s.max_laser_power.below(s.laser_power),
        message::plain("• Laser power "@) + message::exact(s.laser_power, 0) + message::plain(
            " S is outside allowed range 0 – "@,
        ) + message::exact(s.max_laser_power, 0) + message::plain(" S"@),
    ) + when(
        s.max_x_mm.upto(zero) || s.max_y_mm.upto(zero),
        message::plain("• Work area must be positive (currently "@) + message::exact(s.max_x_mm, 1)
            + message::plain(" × "@) + message::exact(s.max_y_mm, 1) + message::plain(" mm)"@),
    ) + when(
        s.origin_x.below(zero) || s.origin_y.below(zero),
        message::plain("• Origin ("@) + message::exact(s.origin_x, 1) + message::plain(", "@)
            + message::exact(s.origin_y, 1) + message::plain(") must be ≥ 0"@),
    )
}

/// What settings are refused with: all that is wrong with them.
pub open spec fn settings_refusal(s: Settings) -> Option<(Seq<char>, Seq<Glyph>)> {
    if settings_problems(s).len() == 0 {
        None
    } else {
        Some(("Invalid machine settings"@, stacked(settings_problems(s))))
    }
}

/// Check the settings before anything is converted.  They are refused if there
/// is something wrong with them, and the details name everything that is.
pub fn validate_settings(s: &MachineSettings) -> (r: Result<(), ConversionError>)
    ensures
        refusal(r) == settings_refusal(s@),
{
    let zero = Real::zero();
    let mut problems: Vec<Message> = Vec::new();
    assert(messages(problems@) == Seq::<Seq<Glyph>>::empty());
    note(
        &mut problems,
        s.feedrate.at_most(zero),
        Message::text("• Feedrate must be > 0 mm/min (currently ").then_real(
            s.feedrate,
            0,
        ).then_text(")"),
    );
    note(
        &mut problems,
        s.max_speed.less(s.feedrate),
        Message::text("• Feedrate ").then_real(s.feedrate, 0).then_text(
            " mm/min exceeds max speed ",
        ).then_real(s.max_speed, 0).then_text(" mm/min"),
    );
    note(
        &mut problems,
        s.tolerance.at_most(zero),
        Message::text("• Tolerance must be > 0 mm (currently ").then_real(
            s.tolerance,
            4,
        ).then_text(")"),
    );
    note(
        &mut problems,
        s.dpi.at_most(zero),
        Message::text("• DPI must be > 0 (currently ").then_real(s.dpi, 1).then_text(")"),
    );
    note(
        &mut problems,
        s.laser_power.less(zero) || s.max_laser_power.less(s.laser_power),
        Message::text("• Laser power ").then_real(s.laser_power, 0).then_text(
            " S is outside allowed range 0 – ",
        ).then_real(s.max_laser_power, 0).then_text(" S"),
    );
    note(
        &mut problems,
        s.max_x_mm.at_most(zero) || s.max_y_mm.at_most(zero),
        Message::text("• Work area must be positive (currently ").then_real(
            s.max_x_mm,
            1,
        ).then_text(" × ").then_real(s.max_y_mm, 1).then_text(" mm)"),
    );
    note(
        &mut problems,
        s.origin_x.less(zero) || s.origin_y.less(zero),
        Message::text("• Origin (").then_real(s.origin_x, 1).then_text(", ").then_real(
            s.origin_y,
            1,
        ).then_text(") must be ≥ 0"),
    );
    assert(messages(problems@) == settings_problems(s@));
    if problems.len() == 0 {
        Ok(())
    } else {
        Err(
            ConversionError {
                title: "Invalid machine settings".to_owned(),
                body: stack(&problems),
            },
        )
    }
}

/// What the settings must meet where all of them are numbers.
pub open spec fn sound(s: Settings) -> bool {
    let zero = Real::spec_zero();
    &&& zero.below(s.feedrate) && s.feedrate.upto(s.max_speed)
    &&& zero.below(s.tolerance)
    &&& zero.below(s.dpi)
    &&& zero.upto(s.laser_power) && s.laser_power.upto(s.max_laser_power)
    &&& zero.below(s.max_x_mm) && zero.below(s.max_y_mm)
    &&& zero.upto(s.origin_x) && zero.upto(s.origin_y)
}

/// Settings that are numbers are accepted exactly if they are sound.
pub proof fn accepted_settings_are_sound(s: Settings)
    requires
        !s.feedrate.nan() && !s.max_speed.nan() && !s.tolerance.nan() && !s.dpi.nan(),
        !s.laser_power.nan() && !s.max_laser_power.nan() && !s.max_x_mm.nan() && !s.max_y_mm.nan(),
        !s.origin_x.nan() && !s.origin_y.nan(),
    ensures
        settings_problems(s).len() == 0 <==> sound(s),
{
}

/// The settings to start with are accepted.
pub proof fn default_settings_are_accepted()
    ensures
        settings_problems(settings::default_settings()).len() == 0,
{
    accepted_settings_are_sound(settings::default_settings());
}

// ── The work area ─────────────────────────────────────────────────────────────

/// Where a job leaves the work area.
pub open spec fn extent_problems(s: Settings, job: Extents) -> Seq<Seq<Glyph>> {
    let zero = Real::spec_zero();
    when(
        job.min.0.below(zero),
        message::plain("• Job starts at X "@) + message::exact(job.min.0, 3) + message::plain(
            " mm (must be ≥ 0)"@,
        ),
    ) + when(
        job.min.1.below(zero),
        message::plain("• Job starts at Y "@) + message::exact(job.min.1, 3) + message::plain(
            " mm (must be ≥ 0)"@,
        ),
    ) + when(
        s.max_x_mm.below(job.max.0),
        message::plain("• Job reaches X "@) + overrun(job.max.0, s.max_x_mm),
    ) + when(
        s.max_y_mm.below(job.max.1),
        message::plain("• Job reaches Y "@) + overrun(job.max.1, s.max_y_mm),
    )
}

/// How far a job goes, and how far beyond the limit that is.
pub open spec fn overrun(reached: Real, limit: Real) -> Seq<Glyph> {
    message::exact(reached, 3) + message::plain(" mm but machine limit is "@) + message::exact(
        limit,
        1,
    ) + message::plain(" mm (overrun by "@) + message::number(
        message::minus(Amount::Exact(reached), Amount::Exact(limit)),
        3,
    ) + message::plain(" mm)"@)
}

/// The details of a job that leaves the work area: its size and place, the work
/// area, and the problems.
pub open spec fn extent_details(s: Settings, job: Extents) -> Seq<Glyph> {
    message::plain("Job size: "@) + message::number(
        message::minus(Amount::Exact(job.max.0), Amount::Exact(job.min.0)),
        3,
    ) + message::plain(" × "@) + message::number(
        message::minus(Amount::Exact(job.max.1), Amount::Exact(job.min.1)),
        3,
    ) + message::plain(" mm  (X "@) + message::exact(job.min.0, 3) + message::plain("…"@)
        + message::exact(job.max.0, 3) + message::plain(", Y "@) + message::exact(job.min.1, 3)
        + message::plain("…"@) + message::exact(job.max.1, 3) + message::plain(")\nWork area: "@)
        + message::exact(s.max_x_mm, 1) + message::plain(" × "@) + message::exact(s.max_y_mm, 1)
        + message::plain(" mm\n\n"@) + stacked(extent_problems(s, job))
}

fn overrun_message(head: &str, reached: Real, limit: Real) -> (r: Message)
    ensures
        r@ == message::plain(head@) + overrun(reached, limit),
{
    let r = Message::text(head).then_real(reached, 3).then_text(
        " mm but machine limit is ",
    ).then_real(limit, 1).then_text(" mm (overrun by ").then_difference(
        reached,
        limit,
        3,
    ).then_text(" mm)");
    assert(r@ == message::plain(head@) + overrun(reached, limit));
    r
}

/// What a job is refused with: how it exceeds the work area.
pub open spec fn extents_refusal(s: Settings, job: Extents) -> Option<(Seq<char>, Seq<Glyph>)> {
    if extent_problems(s, job).len() == 0 {
        None
    } else {
        Some(("Job exceeds work area"@, extent_details(s, job)))
    }
}

/// Check that a job fits into the work area.
pub fn validate_extents(s: &MachineSettings, job: Extents) -> (r: Result<(), ConversionError>)
    ensures
        refusal(r) == extents_refusal(s@, job),
{
    let zero = Real::zero();
    let mut problems: Vec<Message> = Vec::new();
    assert(messages(problems@) == Seq::<Seq<Glyph>>::empty());
    note(
        &mut problems,
        job.min.0.less(zero),
        Message::text("• Job starts at X ").then_real(job.min.0, 3).then_text(" mm (must be ≥ 0)"),
    );
    note(
        &mut problems,
        job.min.1.less(zero),
        Message::text("• Job starts at Y ").then_real(job.min.1, 3).then_text(" mm (must be ≥ 0)"),
    );
    note(
        &mut problems,
        s.max_x_mm.less(job.max.0),
        overrun_message("• Job reaches X ", job.max.0, s.max_x_mm),
    );
    note(
        &mut problems,
        s.max_y_mm.less(job.max.1),
        overrun_message("• Job reaches Y ", job.max.1, s.max_y_mm),
    );
    assert(messages(problems@) == extent_problems(s@, job));
    if problems.len() == 0 {
        return Ok(());
    }
    let body = Message::text("Job size: ").then_difference(job.max.0, job.min.0, 3).then_text(
        " × ",
    ).then_difference(job.max.1, job.min.1, 3).then_text(" mm  (X ").then_real(
        job.min.0,
        3,
    ).then_text("…").then_real(job.max.0, 3).then_text(", Y ").then_real(job.min.1, 3).then_text(
        "…",
    ).then_real(job.max.1, 3).then_text(")\nWork area: ").then_real(s.max_x_mm, 1).then_text(
        " × ",
    ).then_real(s.max_y_mm, 1).then_text(" mm\n\n").followed_by(stack(&problems));
    Err(ConversionError { title: "Job exceeds work area".to_owned(), body })
}

/// A job is accepted exactly if it neither starts below zero nor goes beyond the
/// limit, on either axis.
pub proof fn accepted_job_fits(s: Settings, job: Extents)
    ensures
        extent_problems(s, job).len() == 0 <==> {
            &&& !job.min.0.below(Real::spec_zero())
            &&& !job.min.1.below(Real::spec_zero())
            &&& !s.max_x_mm.below(job.max.0)
            &&& !s.max_y_mm.below(job.max.1)
        },
{
}

// ── The begin sequence ────────────────────────────────────────────────────────

/// The G-code that a job begins with: the begin sequence without its S words,
/// and the laser power from its own setting.
pub open spec fn job_beginning(s: Settings) -> Seq<Glyph> {
    message::plain(settings::sanitised(s.begin_sequence)) + message::plain(" S"@) + message::exact(
        s.laser_power,
        0,
    )
}

/// The G-code that a job begins with.
pub fn begin_sequence(s: &MachineSettings) -> (r: Message)
    ensures
        r@ == job_beginning(s@),
{
    Message::text(s.sanitised_begin_sequence().as_str()).then_text(" S").then_real(
        s.laser_power,
        0,
    )
}

// ── Snippets ──────────────────────────────────────────────────────────────────

/// What a part of a line is to `g-code`.
#[derive(Debug, Clone, Copy, PartialEq, Eq, Structural)]
pub enum Part {
    /// Commands.
    Code,
    /// A comment in parentheses, up to the first that closes.
    Bracket,
    /// A comment up to the end of the line.
    Comment,
    /// Anything behind a quotation mark, up to the end of the line.
    Quoted,
}

/// How far a number with both signs has come.
#[derive(Debug, Clone, Copy, PartialEq, Eq, Structural)]
pub enum Signs {
    Elsewhere,
    /// Behind a letter.
    Letter,
    /// Behind a letter and a plus sign.
    Plus,
    /// Behind a letter and both signs.
    Both,
    /// Behind both signs and digits.
    Digits,
    /// Behind both signs and a point.
    Point,
}

/// The digits of the largest number that `g-code` holds.
pub const LARGEST: [char; 29] = [
    '7', '9', '2', '2', '8', '1', '6', '2', '5', '1', '4', '2', '6', '4', '3', '3', '7', '5', '9',
    '3', '5', '4', '3', '9', '5', '0', '3', '3', '5',
];

/// How many digits or opening parentheses may stand in a row: `g-code` goes into
/// them by recursion.
pub const DEPTH: u8 = 100;

/// What is known of a text behind a character of it.
#[derive(Debug, Clone, Copy, PartialEq, Eq, Structural)]
pub struct Scan {
    pub part: Part,
    pub signs: Signs,
    /// How many digits of the largest number the last digits are, leading zeros
    /// left out; one more than it has where they are not its first.
    pub matched: usize,
    /// Whether the point behind the largest number was just read.
    pub largest: bool,
    /// How many digits or opening parentheses were read in a row.
    pub row: u8,
    /// Whether the text cannot be read to the end.
    pub stuck: bool,
}

pub open spec fn is_letter(c: char) -> bool {
    'a' <= c <= 'z' || 'A' <= c <= 'Z' || c == '$'
}

impl Scan {
    /// Before the first character.
    pub open spec fn start() -> Scan {
        Scan {
            part: Part::Code,
            signs: Signs::Elsewhere,
            matched: 0,
            largest: false,
            row: 0,
            stuck: false,
        }
    }

    /// The part that a character leads into.
    pub open spec fn part_after(self, c: char) -> Part {
        if c == '\n' || c == '\r' {
            Part::Code
        } else {
            match self.part {
                Part::Code => if c == '(' {
                    Part::Bracket
                } else if c == ';' {
                    Part::Comment
                } else if c == '"' {
                    Part::Quoted
                } else {
                    Part::Code
                },
                Part::Bracket => if c == ')' {
                    Part::Code
                } else {
                    Part::Bracket
                },
                part => part,
            }
        }
    }

    /// Whether a character is part of the commands.
    pub open spec fn live(self, c: char) -> bool {
        self.part is Quoted || (self.part is Code && !(c == '(' || c == ';'))
    }

    pub open spec fn signs_after(self, c: char) -> Signs {
        if is_letter(c) {
            Signs::Letter
        } else {
            match self.signs {
                Signs::Letter => if c == '+' {
                    Signs::Plus
                } else {
                    Signs::Elsewhere
                },
                Signs::Plus => if c == '-' {
                    Signs::Both
                } else {
                    Signs::Elsewhere
                },
                Signs::Both => if text::is_digit(c) {
                    Signs::Digits
                } else if c == '.' {
                    Signs::Point
                } else {
                    Signs::Elsewhere
                },
                Signs::Digits => if text::is_digit(c) {
                    Signs::Digits
                } else {
                    Signs::Elsewhere
                },
                _ => Signs::Elsewhere,
            }
        }
    }

    pub open spec fn matched_after(self, c: char) -> usize {
        if !text::is_digit(c) || (self.matched == 0 && c == '0') {
            0
        } else if self.matched < LARGEST@.len() && c == LARGEST@[self.matched as int] {
            (self.matched + 1) as usize
        } else {
            (LARGEST@.len() + 1) as usize
        }
    }

    pub open spec fn row_after(self, c: char) -> u8 {
        let more = if self.row < u8::MAX {
            (self.row + 1) as u8
        } else {
            self.row
        };
        if self.live(c) && text::is_digit(c) {
            more
        } else if self.part is Code && c == '(' {
            1
        } else if c == '(' && (self.part is Quoted || (self.part is Bracket && self.row > 0)) {
            more
        } else {
            0
        }
    }

    /// Whether `g-code` cannot be trusted to read on over a character.
    pub open spec fn stuck_at(self, c: char) -> bool {
        ||| self.live(c) && c == '.' && self.signs is Digits
        ||| self.live(c) && text::is_digit(c) && self.signs is Point
        ||| self.live(c) && self.largest && '5' <= c <= '9'
        ||| self.row_after(c) > DEPTH
    }

    /// Behind one more character.
    pub open spec fn behind(self, c: char) -> Scan {
        if self.live(c) {
            Scan {
                part: self.part_after(c),
                signs: self.signs_after(c),
                matched: self.matched_after(c),
                largest: c == '.' && self.matched == LARGEST@.len(),
                row: self.row_after(c),
                stuck: self.stuck || self.stuck_at(c),
            }
        } else {
            Scan {
                part: self.part_after(c),
                row: self.row_after(c),
                stuck: self.stuck || self.stuck_at(c),
                ..Scan::start()
            }
        }
    }

    fn step(self, c: char) -> (r: Scan)
        ensures
            r == self.behind(c),
    {
        let digit = '0' <= c && c <= '9';
        let letter = ('a' <= c && c <= 'z') || ('A' <= c && c <= 'Z') || c == '$';
        let part = if c == '\n' || c == '\r' {
            Part::Code
        } else {
            match self.part {
                Part::Code => if c == '(' {
                    Part::Bracket
                } else if c == ';' {
                    Part::Comment
                } else if c == '"' {
                    Part::Quoted
                } else {
                    Part::Code
                },
                Part::Bracket => if c == ')' {
                    Part::Code
                } else {
                    Part::Bracket
                },
                part => part,
            }
        };
        let live = self.part == Part::Quoted || (self.part == Part::Code && !(c == '(' || c
            == ';'));
        let more: u8 = self.row.saturating_add(1);
        let row: u8 = if live && digit {
            more
        } else if self.part == Part::Code && c == '(' {
            1
        } else if c == '(' && (self.part == Part::Quoted || (self.part == Part::Bracket
            && self.row > 0)) {
            more
        } else {
            0
        };
        let stuck = self.stuck || (live && c == '.' && self.signs == Signs::Digits) || (live
            && digit && self.signs == Signs::Point) || (live && self.largest && '5' <= c && c
            <= '9') || row > DEPTH;
        if !live {
            return Scan {
                part,
                signs: Signs::Elsewhere,
                matched: 0,
                largest: false,
                row,
                stuck,
            };
        }
        let signs = if letter {
            Signs::Letter
        } else {
            match self.signs {
                Signs::Letter => if c == '+' {
                    Signs::Plus
                } else {
                    Signs::Elsewhere
                },
                Signs::Plus => if c == '-' {
                    Signs::Both
                } else {
                    Signs::Elsewhere
                },
                Signs::Both => if digit {
                    Signs::Digits
                } else if c == '.' {
                    Signs::Point
                } else {
                    Signs::Elsewhere
                },
                Signs::Digits => if digit {
                    Signs::Digits
                } else {
                    Signs::Elsewhere
                },
                _ => Signs::Elsewhere,
            }
        };
        let matched: usize = if !digit || (self.matched == 0 && c == '0') {
            0
        } else if self.matched < 29 && c == LARGEST[self.matched] {
            self.matched + 1
        } else {
            30
        };
        Scan { part, signs, matched, largest: c == '.' && self.matched == 29, row, stuck }
    }
}

/// What is known of a text behind it.
pub open spec fn scanned(s: Seq<char>) -> Scan
    decreases s.len(),
{
    if s.len() == 0 {
        Scan::start()
    } else {
        scanned(s.drop_last()).behind(s.last())
    }
}

/// What `g-code` reads to the end.  It panics on a number with both signs and a
/// point, and where the fraction rounds the largest number up; numbers and
/// comments it reads by recursion.  What stands in a comment does not matter.
pub open spec fn tractable(s: Seq<char>) -> bool {
    !scanned(s).stuck
}

/// Whether `g-code` reads a text to the end.
pub fn is_tractable(s: &str) -> (r: bool)
    ensures
        r == tractable(s@),
{
    let v = text::to_chars(s);
    let mut scan = Scan {
        part: Part::Code,
        signs: Signs::Elsewhere,
        matched: 0,
        largest: false,
        row: 0,
        stuck: false,
    };
    let mut i: usize = 0;
    assert(v@.take(0) =~= seq![]);
    while i < v.len()
        invariant
            i <= v@.len(),
            scan == scanned(v@.take(i as int)),
        decreases v@.len() - i,
    {
        assert(v@.take(i + 1).drop_last() =~= v@.take(i as int));
        scan = scan.step(v[i]);
        i = i + 1;
    }
    assert(v@.take(i as int) =~= v@);
    !scan.stuck
}

/// What `g_code::parse::snippet_parser` complains about in a text, if anything.
pub uninterp spec fn snippet_error(s: Seq<char>) -> Option<Seq<char>>;

/// Calls `g_code::parse::snippet_parser` and writes out the error that it gives
/// for a text that is no G-code.  Nothing is claimed of the error but that it
/// depends on the text alone.  The parser panics on a number with both signs and
/// a point and on a sum that its decimals cannot hold, and recurses on digits and
/// parentheses in a row.
#[verifier::external_body]
fn check_snippet(s: &str) -> (r: Option<String>)
    requires
        tractable(s@),
    ensures
        text::opt(r) == snippet_error(s@),
{
    g_code::parse::snippet_parser(s).err().map(|e| format!("{e:?}"))
}

// ── A conversion ──────────────────────────────────────────────────────────────

/// What the tool path of a drawing is made with.
#[derive(Debug)]
pub struct ConversionPlan {
    /// The G-code before and after the tool path.
    pub begin: Message,
    pub end: String,
    pub config: ConversionConfig,
    pub circular_interpolation: bool,
    pub line_numbers: bool,
    pub checksums: bool,
}

impl ConversionPlan {
    /// Whether the plan is that of the settings.
    pub open spec fn follows(self, s: Settings) -> bool {
        &&& self.begin@ == job_beginning(s)
        &&& self.end@ == s.end_sequence
        &&& self.config.tolerance == s.tolerance
        &&& self.config.feedrate == s.feedrate
        &&& self.config.dpi == s.dpi
        &&& self.config.origin == (Some(s.origin_x), Some(s.origin_y))
        &&& self.config.extra_attribute_name is None
        &&& self.circular_interpolation == s.circular_interpolation
        &&& self.line_numbers == s.line_numbers
        &&& self.checksums == s.checksums
    }
}

/// Why there is no G-code.
#[derive(Debug)]
pub enum ConversionFailure {
    /// The settings or the size of the job rule it out.
    Refused(ConversionError),
    /// Anything else, in words.
    Other(String),
}

/// A failure, with texts by their characters.
pub enum Failure {
    Refused(Seq<char>, Seq<Glyph>),
    Other(Seq<char>),
}

impl View for ConversionFailure {
    type V = Failure;

    open spec fn view(&self) -> Failure {
        match *self {
            ConversionFailure::Refused(e) => Failure::Refused(e.title@, e.body@),
            ConversionFailure::Other(e) => Failure::Other(e@),
        }
    }
}

/// The plan for a conversion, unless the settings rule it out.
pub fn plan_conversion(s: &MachineSettings) -> (r: Result<ConversionPlan, ConversionError>)
    ensures
        match r {
            Ok(plan) => settings_refusal(s@) is None && plan.follows(s@),
            Err(e) => settings_refusal(s@) == Some((e.title@, e.body@)),
        },
{
    match validate_settings(s) {
        Err(e) => Err(e),
        Ok(()) => Ok(
            ConversionPlan {
                begin: begin_sequence(s),
                end: s.end_sequence.clone(),
                config: ConversionConfig {
                    tolerance: s.tolerance,
                    feedrate: s.feedrate,
                    dpi: s.dpi,
                    origin: (Some(s.origin_x), Some(s.origin_y)),
                    extra_attribute_name: None,
                },
                circular_interpolation: s.circular_interpolation,
                line_numbers: s.line_numbers,
                checksums: s.checksums,
            },
        ),
    }
}

/// Why there is no plan: the drawing cannot be read, one of the sequences around
/// the job is no G-code, or the settings are refused, in this order.
pub open spec fn obstacle(
    s: Settings,
    document: Option<Seq<char>>,
    begin: Option<Seq<char>>,
    end: Option<Seq<char>>,
) -> Option<Failure> {
    if let Some(e) = document {
        Some(Failure::Other("Failed to parse SVG document: "@ + e))
    } else if let Some(e) = begin {
        Some(Failure::Other("Bad begin sequence: "@ + e))
    } else if let Some(e) = end {
        Some(Failure::Other("Bad end sequence: "@ + e))
    } else if let Some((title, body)) = settings_refusal(s) {
        Some(Failure::Refused(title, body))
    } else {
        None
    }
}

/// The plan for a conversion, given what is wrong with the drawing and with the
/// sequences around the job.
pub fn settle_plan(
    s: &MachineSettings,
    document: Option<String>,
    begin: Option<String>,
    end: Option<String>,
) -> (r: Result<ConversionPlan, ConversionFailure>)
    ensures
        match r {
            Ok(plan) => obstacle(s@, text::opt(document), text::opt(begin), text::opt(end)) is None
                && plan.follows(s@),
            Err(e) => obstacle(s@, text::opt(document), text::opt(begin), text::opt(end)) == Some(
                e@,
            ),
        },
{
    if let Some(e) = document {
        return Err(
            ConversionFailure::Other(text::joined("Failed to parse SVG document: ", e.as_str())),
        );
    }
    if let Some(e) = begin {
        return Err(ConversionFailure::Other(text::joined("Bad begin sequence: ", e.as_str())));
    }
    if let Some(e) = end {
        return Err(ConversionFailure::Other(text::joined("Bad end sequence: ", e.as_str())));
    }
    match plan_conversion(s) {
        Ok(plan) => Ok(plan),
        Err(e) => Err(ConversionFailure::Refused(e)),
    }
}

/// The plan for converting a drawing.  `begin` is the G-code that the job begins
/// with, its numbers written out.
pub fn prepare_conversion(svg: &str, begin: &str, s: &MachineSettings) -> (r: Result<
    ConversionPlan,
    ConversionFailure,
>)
    requires
        tractable(begin@),
        tractable(s@.end_sequence),
    ensures
        match r {
            Ok(plan) => obstacle(
                s@,
                svg::document_error(svg@),
                snippet_error(begin@),
                snippet_error(s@.end_sequence),
            ) is None && plan.follows(s@),
            Err(e) => obstacle(
                s@,
                svg::document_error(svg@),
                snippet_error(begin@),
                snippet_error(s@.end_sequence),
            ) == Some(e@),
        },
{
    let document = match svg::parse_document(svg) {
        Ok(_) => None,
        Err(e) => Some(e),
    };
    let begin_error = check_snippet(begin);
    let end_error = check_snippet(s.end_sequence.as_str());
    settle_plan(s, document, begin_error, end_error)
}

/// What is wrong with a sequence around the job, if anything.
pub open spec fn sequence_error(s: Seq<char>) -> Option<Seq<char>> {
    if tractable(s) {
        snippet_error(s)
    } else {
        Some("it cannot be read"@)
    }
}

fn check_sequence(s: &str) -> (r: Option<String>)
    ensures
        text::opt(r) == sequence_error(s@),
{
    if is_tractable(s) {
        check_snippet(s)
    } else {
        Some("it cannot be read".to_owned())
    }
}

/// The plan for converting a drawing, whatever stands in the sequences around the
/// job: one that `g-code` cannot be trusted with is refused unread.
pub fn try_conversion(svg: &str, begin: &str, s: &MachineSettings) -> (r: Result<
    ConversionPlan,
    ConversionFailure,
>)
    ensures
        match r {
            Ok(plan) => obstacle(
                s@,
                svg::document_error(svg@),
                sequence_error(begin@),
                sequence_error(s@.end_sequence),
            ) is None && plan.follows(s@),
            Err(e) => obstacle(
                s@,
                svg::document_error(svg@),
                sequence_error(begin@),
                sequence_error(s@.end_sequence),
            ) == Some(e@),
        },
{
    if is_tractable(begin) && is_tractable(s.end_sequence.as_str()) {
        return prepare_conversion(svg, begin, s);
    }
    let document = match svg::parse_document(svg) {
        Ok(_) => None,
        Err(e) => Some(e),
    };
    settle_plan(s, document, check_sequence(begin), check_sequence(s.end_sequence.as_str()))
}

/// The G-code that was made, unless its tool path does not fit the work area.
/// `extents` are those of the tool path.
pub fn accept_job(s: &MachineSettings, gcode: String, extents: Extents) -> (r: Result<
    String,
    ConversionError,
>)
    ensures
        match r {
            Ok(g) => extents_refusal(s@, extents) is None && g@ == gcode@,
            Err(e) => extents_refusal(s@, extents) == Some((e.title@, e.body@)),
        },
{
    match validate_extents(s, extents) {
        Ok(()) => Ok(gcode),
        Err(e) => Err(e),
    }
}

// ── The lines of a job ────────────────────────────────────────────────────────

/// `s` without what stands in parentheses, `depth` of which are open.
pub open spec fn without_parentheses(s: Seq<char>, depth: nat) -> Seq<char>
    decreases s.len(),
{
    if s.len() == 0 {
        seq![]
    } else if s[0] == '(' {
        without_parentheses(s.skip(1), depth + 1)
    } else if s[0] == ')' {
        without_parentheses(s.skip(1), if depth > 0 { (depth - 1) as nat } else { 0 })
    } else if depth == 0 {
        seq![s[0]] + without_parentheses(s.skip(1), depth)
    } else {
        without_parentheses(s.skip(1), depth)
    }
}

/// What is left of a line without comments and outer white space; nothing of a
/// line that is a comment as a whole.
pub open spec fn uncommented(line: Seq<char>) -> Seq<char> {
    let t = text::trimmed(line);
    if t.len() == 0 || t[0] == ';' || t[0] == '(' {
        seq![]
    } else {
        text::trimmed(without_parentheses(t.take(text::cut(t, ';')), 0))
    }
}

/// The lines that are left without comments, in order.
pub open spec fn sendable(lines: Seq<Seq<char>>) -> Seq<Seq<char>>
    decreases lines.len(),
{
    if lines.len() == 0 {
        seq![]
    } else {
        let rest = sendable(lines.drop_last());
        let last = uncommented(lines.last());
        if last.len() == 0 {
            rest
        } else {
            rest.push(last)
        }
    }
}

fn strip_parentheses(v: &Vec<char>, hi: usize) -> (r: String)
    requires
        hi <= v@.len(),
    ensures
        r@ == without_parentheses(v@.take(hi as int), 0),
{
    let ghost s = v@.take(hi as int);
    let mut out = String::new();
    let mut depth: usize = 0;
    let mut i: usize = 0;
    assert(s.skip(0) == s);
    assert(Seq::<char>::empty() + without_parentheses(s, 0) == without_parentheses(s, 0));
    while i < hi
        invariant
            i <= hi <= v@.len(),
            s == v@.take(hi as int),
            depth <= i,
            out@ + without_parentheses(s.skip(i as int), depth as nat) == without_parentheses(s, 0),
        decreases hi - i,
    {
        let c = v[i];
        let ghost rest = s.skip(i as int);
        assert(rest[0] == c);
        assert(rest.skip(1) == s.skip(i + 1));
        let ghost before = out@;
        if c == '(' {
            depth = depth + 1;
        } else if c == ')' {
            if depth > 0 {
                depth = depth - 1;
            }
        } else if depth == 0 {
            out.push(c);
            assert(before + (seq![c] + without_parentheses(s.skip(i + 1), 0)) == out@
                + without_parentheses(s.skip(i + 1), 0));
        }
        i = i + 1;
    }
    assert(s.skip(i as int) == Seq::<char>::empty());
    assert(out@ + Seq::<char>::empty() == out@);
    out
}

/// What is left of a line without comments and outer white space.
fn strip_comments(line: &str) -> (r: String)
    ensures
        r@ == uncommented(line@),
{
    let t = text::trim(line);
    let v = text::to_chars(t.as_str());
    if v.len() == 0 || v[0] == ';' || v[0] == '(' {
        let empty = String::new();
        assert(empty@ == Seq::<char>::empty());
        return empty;
    }
    let mut end: usize = 0;
    while end < v.len() && v[end] != ';'
        invariant
            end <= v@.len(),
            forall|k: int| 0 <= k < end ==> v@[k] != ';',
        decreases v@.len() - end,
    {
        end = end + 1;
    }
    proof {
        text::lemma_cut_is(v@, ';', end as int);
    }
    let kept = strip_parentheses(&v, end);
    text::trim(kept.as_str())
}

/// The lines of a job that are worth sending: without comments, outer white
/// space and empty lines.
pub fn sendable_lines(gcode: &str) -> (r: Vec<String>)
    ensures
        text::texts(r@) == sendable(text::lines(gcode@)),
{
    let lines = text::lines_of(gcode);
    let ghost all = text::texts(lines@);
    let mut out: Vec<String> = Vec::new();
    let mut i: usize = 0;
    assert(all.take(0) == Seq::<Seq<char>>::empty());
    assert(text::texts(out@) == Seq::<Seq<char>>::empty());
    while i < lines.len()
        invariant
            i <= lines@.len(),
            all == text::texts(lines@),
            text::texts(out@) == sendable(all.take(i as int)),
        decreases lines@.len() - i,
    {
        assert(all.take(i + 1).drop_last() == all.take(i as int));
        assert(all.take(i + 1).last() == lines@[i as int]@);
        let line = strip_comments(lines[i].as_str());
        if !text::is_empty(line.as_str()) {
            let ghost before = out@;
            let ghost shown = line@;
            out.push(line);
            assert(text::texts(out@) == text::texts(before).push(shown));
        }
        i = i + 1;
    }
    assert(all.take(i as int) == all);
    out
}

/// A line that the machine takes: not empty, no comment in it, and no white
/// space at either end.
pub open spec fn is_clean(line: Seq<char>) -> bool {
    &&& line.len() > 0
    &&& !line.contains(';')
    &&& !line.contains('(')
    &&& !line.contains(')')
    &&& !text::is_space(line[0])
    &&& !text::is_space(line.last())
}

proof fn lemma_without_parentheses(s: Seq<char>, depth: nat, c: char)
    ensures
        !without_parentheses(s, depth).contains('('),
        !without_parentheses(s, depth).contains(')'),
        !s.contains(c) ==> !without_parentheses(s, depth).contains(c),
    decreases s.len(),
{
    if s.len() > 0 {
        let rest = s.skip(1);
        let d = if s[0] == '(' {
            depth + 1
        } else if s[0] == ')' && depth > 0 {
            (depth - 1) as nat
        } else {
            depth
        };
        lemma_without_parentheses(rest, d, c);
        if !s.contains(c) {
            assert(!rest.contains(c)) by {
                if rest.contains(c) {
                    let i = choose|i: int| 0 <= i < rest.len() && rest[i] == c;
                    assert(s[i + 1] == c);
                }
            }
            assert(s[0] != c);
        }
        let tail = without_parentheses(rest, d);
        let all = without_parentheses(s, depth);
        assert forall|x: char| x != s[0] && !(#[trigger] tail.contains(x)) implies !all.contains(x) by {
            if all.contains(x) {
                let i = choose|i: int| 0 <= i < all.len() && all[i] == x;
                if all.len() != tail.len() {
                    assert(all == seq![s[0]] + tail);
                    assert(tail[i - 1] == x);
                } else {
                    assert(all == tail || all == seq![s[0]] + tail);
                    assert(all == tail);
                }
            }
        }
    }
}

proof fn lemma_trimmed(s: Seq<char>)
    ensures
        text::trimmed(s).len() > 0 ==> !text::is_space(text::trimmed(s)[0]) && !text::is_space(
            text::trimmed(s).last(),
        ),
        forall|c: char| #[trigger] text::trimmed(s).contains(c) ==> s.contains(c),
{
    lemma_trim_start(s);
    lemma_trim_end(text::trim_start(s));
}

proof fn lemma_trim_start(s: Seq<char>)
    ensures
        text::trim_start(s).len() > 0 ==> !text::is_space(text::trim_start(s)[0]),
        forall|c: char| #[trigger] text::trim_start(s).contains(c) ==> s.contains(c),
    decreases s.len(),
{
    if s.len() > 0 && text::is_space(s[0]) {
        let t = s.skip(1);
        lemma_trim_start(t);
        assert forall|c: char| #[trigger] text::trim_start(s).contains(c) implies s.contains(c) by {
            let i = choose|i: int| 0 <= i < t.len() && t[i] == c;
            assert(s[i + 1] == c);
        }
    }
}

proof fn lemma_trim_end(s: Seq<char>)
    requires
        s.len() > 0 ==> !text::is_space(s[0]),
    ensures
        text::trim_end(s).len() > 0 ==> text::trim_end(s)[0] == s[0] && !text::is_space(
            text::trim_end(s).last(),
        ),
        forall|c: char| #[trigger] text::trim_end(s).contains(c) ==> s.contains(c),
    decreases s.len(),
{
    if s.len() > 0 && text::is_space(s.last()) {
        let t = s.drop_last();
        lemma_trim_end(t);
        assert forall|c: char| #[trigger] text::trim_end(s).contains(c) implies s.contains(c) by {
            let i = choose|i: int| 0 <= i < t.len() && t[i] == c;
            assert(s[i] == c);
        }
    }
}

/// Every line that is sent is clean.
pub proof fn sent_lines_are_clean(lines: Seq<Seq<char>>, i: int)
    requires
        0 <= i < sendable(lines).len(),
    ensures
        is_clean(sendable(lines)[i]),
    decreases lines.len(),
{
    let rest = sendable(lines.drop_last());
    if i < rest.len() {
        sent_lines_are_clean(lines.drop_last(), i);
    } else {
        let t = text::trimmed(lines.last());
        let n = text::cut(t, ';');
        text::lemma_cut(t, ';');
        let head = t.take(n);
        assert(!head.contains(';'));
        lemma_without_parentheses(head, 0, ';');
        lemma_trimmed(without_parentheses(head, 0));
    }
}

/// A clean line is sent as it is.
pub proof fn clean_lines_pass_unchanged(line: Seq<char>)
    requires
        is_clean(line),
    ensures
        uncommented(line) == line,
{
    assert(text::trimmed(line) == line);
    text::lemma_cut(line, ';');
    assert(line.take(line.len() as int) == line);
    assert(line.contains(line[0]));
    lemma_nothing_in_parentheses(line);
}

proof fn lemma_nothing_in_parentheses(s: Seq<char>)
    requires
        !s.contains('('),
        !s.contains(')'),
    ensures
        without_parentheses(s, 0) == s,
    decreases s.len(),
{
    if s.len() > 0 {
        let rest = s.skip(1);
        assert(s.contains(s[0]));
        assert forall|c: char| #[trigger] rest.contains(c) implies s.contains(c) by {
            let i = choose|i: int| 0 <= i < rest.len() && rest[i] == c;
            assert(s[i + 1] == c);
        }
        lemma_nothing_in_parentheses(rest);
        assert(seq![s[0]] + rest == s);
    }
}

// ── Laws ──────────────────────────────────────────────────────────────────────

/// One where a condition holds, and else zero.
pub open spec fn one_if(holds: bool) -> nat {
    if holds {
        1
    } else {
        0
    }
}

/// Every setting that is out of range is complained about once, and no other.
pub proof fn every_bad_setting_is_named(s: Settings)
    ensures
        settings_problems(s).len() == one_if(s.feedrate.upto(Real { bits: 0 })) + one_if(
            s.max_speed.below(s.feedrate),
        ) + one_if(s.tolerance.upto(Real { bits: 0 })) + one_if(s.dpi.upto(Real { bits: 0 }))
            + one_if(
            s.laser_power.below(Real { bits: 0 }) || s.max_laser_power.below(s.laser_power),
        ) + one_if(s.max_x_mm.upto(Real { bits: 0 }) || s.max_y_mm.upto(Real { bits: 0 })) + one_if(
            s.origin_x.below(Real { bits: 0 }) || s.origin_y.below(Real { bits: 0 }),
        ),
{
}

/// Every side on which a job leaves the work area is named once: one message for
/// each coordinate below zero and for each beyond its own limit.
pub proof fn every_overrun_is_named(s: Settings, job: Extents)
    ensures
        extent_problems(s, job).len() == one_if(job.min.0.below(Real { bits: 0 })) + one_if(
            job.min.1.below(Real { bits: 0 }),
        ) + one_if(s.max_x_mm.below(job.max.0)) + one_if(s.max_y_mm.below(job.max.1)),
{
}

/// An overrun is told by how far the job goes, by the limit, and by the first less
/// the second.
pub proof fn an_overrun_is_what_exceeds_the_limit(reached: Real, limit: Real)
    ensures
        ({
            let o = overrun(reached, limit);
            &&& o[0] == (Glyph::Number { amount: Amount::Exact(reached), places: 3, width: 0 })
            &&& o.contains(Glyph::Number { amount: Amount::Exact(limit), places: 1, width: 0 })
            &&& o.contains(
                Glyph::Number {
                    amount: Amount::Minus(
                        Box::new(Amount::Exact(reached)),
                        Box::new(Amount::Exact(limit)),
                    ),
                    places: 3,
                    width: 0,
                },
            )
        }),
{
    let o = overrun(reached, limit);
    let m = " mm but machine limit is "@.len() as int;
    let n = " mm (overrun by "@.len() as int;
    assert(o[1 + m] == (Glyph::Number { amount: Amount::Exact(limit), places: 1, width: 0 }));
    assert(o[2 + m + n] == (Glyph::Number {
        amount: message::minus(Amount::Exact(reached), Amount::Exact(limit)),
        places: 3,
        width: 0,
    }));
}

/// Lines under each other are separated by one line feed each.
pub proof fn stacked_lines_are_separated(v: Seq<Seq<Glyph>>, line: Seq<Glyph>)
    ensures
        stacked(seq![line]) == line,
        v.len() > 0 ==> stacked(v.push(line)) == stacked(v) + seq![Glyph::Code(10)] + line,
        stacked(seq![]) == Seq::<Glyph>::empty(),
{
    reveal_strlit("\n");
    assert(v.push(line).drop_last() =~= v);
    assert(message::plain("\n"@) =~= seq![Glyph::Code(10)]);
}

/// Settings and jobs are refused just where there is something to complain about,
/// and then with all of it.
pub proof fn refusals_hold_the_problems(s: Settings, job: Extents)
    ensures
        settings_refusal(s) is None <==> settings_problems(s).len() == 0,
        settings_refusal(s) matches Some((title, body)) ==> body == stacked(settings_problems(s)),
        extents_refusal(s, job) is None <==> extent_problems(s, job).len() == 0,
        extents_refusal(s, job) matches Some((title, body)) ==> {
            let p = stacked(extent_problems(s, job));
            body.len() >= p.len() && body.skip(body.len() - p.len()) == p
        },
{
    if let Some((title, body)) = extents_refusal(s, job) {
        let p = stacked(extent_problems(s, job));
        assert(body.skip(body.len() - p.len()) =~= p);
    }
}

/// A job begins with the begin sequence less its S words, and then sets the laser
/// power to the one of the settings.
pub proof fn a_job_begins_with_its_power(s: Settings)
    ensures
        ({
            let b = job_beginning(s);
            let n = settings::sanitised(s.begin_sequence).len();
            &&& b.len() == n + 3
            &&& b.take(n as int) == message::plain(settings::sanitised(s.begin_sequence))
            &&& b[n as int] == Glyph::Code(' ' as int) && b[n as int + 1] == Glyph::Code('S' as int)
            &&& b.last() == (Glyph::Number {
                amount: Amount::Exact(s.laser_power),
                places: 0,
                width: 0,
            })
        }),
{
    reveal_strlit(" S");
    let b = job_beginning(s);
    let n = settings::sanitised(s.begin_sequence).len();
    assert(b.take(n as int) =~= message::plain(settings::sanitised(s.begin_sequence)));
}

/// A plan that follows the settings has their values, each in its place.
pub proof fn a_plan_has_the_values_of_the_settings(plan: ConversionPlan, s: Settings)
    requires
        plan.follows(s),
    ensures
        plan.config.origin.0 == Some(s.origin_x) && plan.config.origin.1 == Some(s.origin_y),
        plan.config.tolerance == s.tolerance && plan.config.feedrate == s.feedrate,
        plan.config.dpi == s.dpi && plan.config.extra_attribute_name is None,
        plan.circular_interpolation == s.circular_interpolation,
        plan.line_numbers == s.line_numbers && plan.checksums == s.checksums,
        plan.end@ == s.end_sequence && plan.begin@ == job_beginning(s),
{
}

/// The drawing is complained about before the sequences, the begin before the end,
/// and the settings last; where nothing is wrong there is no obstacle.
pub proof fn the_first_obstacle_counts(
    s: Settings,
    document: Option<Seq<char>>,
    begin: Option<Seq<char>>,
    end: Option<Seq<char>>,
)
    ensures
        obstacle(s, document, begin, end) is None <==> document is None && begin is None
            && end is None && settings_problems(s).len() == 0,
        document matches Some(e) ==> obstacle(s, document, begin, end) == Some(
            Failure::Other("Failed to parse SVG document: "@ + e),
        ),
        document is None ==> (begin matches Some(e) ==> obstacle(s, document, begin, end) == Some(
            Failure::Other("Bad begin sequence: "@ + e),
        )),
        document is None && begin is None ==> (end matches Some(e) ==> obstacle(
            s,
            document,
            begin,
            end,
        ) == Some(Failure::Other("Bad end sequence: "@ + e))),
        document is None && begin is None && end is None && settings_problems(s).len() > 0 ==> (
        obstacle(s, document, begin, end) matches Some(Failure::Refused(_, body)) && body == stacked(
            settings_problems(s),
        )),
{
}

/// What stands between parentheses is left out, and what stands before and behind
/// them stays.
pub proof fn parentheses_are_left_out(a: Seq<char>, c: Seq<char>, b: Seq<char>)
    requires
        !a.contains('(') && !a.contains(')'),
        !c.contains('(') && !c.contains(')'),
    ensures
        without_parentheses(a + seq!['('] + c + seq![')'] + b, 0) == a + without_parentheses(b, 0),
        without_parentheses(a, 0) == a,
    decreases a.len(),
{
    let s = a + seq!['('] + c + seq![')'] + b;
    lemma_nothing_in_parentheses(a);
    if a.len() == 0 {
        assert(s.skip(1) =~= c + seq![')'] + b);
        lemma_inside_parentheses(c, b);
        assert(a + without_parentheses(b, 0) =~= without_parentheses(b, 0));
    } else {
        let rest = a.skip(1);
        assert(a.contains(a[0]));
        assert forall|x: char| #[trigger] rest.contains(x) implies a.contains(x) by {
            let i = choose|i: int| 0 <= i < rest.len() && rest[i] == x;
            assert(a[i + 1] == x);
        }
        parentheses_are_left_out(rest, c, b);
        assert(s.skip(1) =~= rest + seq!['('] + c + seq![')'] + b);
        assert(seq![a[0]] + (rest + without_parentheses(b, 0)) =~= a + without_parentheses(b, 0));
    }
}

proof fn lemma_inside_parentheses(c: Seq<char>, b: Seq<char>)
    requires
        !c.contains('(') && !c.contains(')'),
    ensures
        without_parentheses(c + seq![')'] + b, 1) == without_parentheses(b, 0),
    decreases c.len(),
{
    let s = c + seq![')'] + b;
    if c.len() == 0 {
        assert(s.skip(1) =~= b);
    } else {
        let rest = c.skip(1);
        assert(c.contains(c[0]));
        assert forall|x: char| #[trigger] rest.contains(x) implies c.contains(x) by {
            let i = choose|i: int| 0 <= i < rest.len() && rest[i] == x;
            assert(c[i + 1] == x);
        }
        lemma_inside_parentheses(rest, b);
        assert(s.skip(1) =~= rest + seq![')'] + b);
    }
}

/// A clean line keeps just itself when a comment follows it, behind a semicolon or
/// in parentheses; a line that begins with a comment keeps nothing.
pub proof fn comments_are_left_out(line: Seq<char>, c: Seq<char>)
    requires
        is_clean(line),
    ensures
        !text::is_space(line[0]) && (c.len() == 0 || !text::is_space(c.last())) ==> uncommented(
            line + seq![';'] + c,
        ) == line,
        !c.contains('(') && !c.contains(')') && !c.contains(';') ==> uncommented(
            line + seq!['('] + c + seq![')'],
        ) == line,
        c.len() == 0 || !text::is_space(c.last()) ==> uncommented(seq![';'] + c).len() == 0,
        c.len() == 0 || !text::is_space(c.last()) ==> uncommented(seq!['('] + c).len() == 0,
        uncommented(seq![]).len() == 0,
{
    text::trimmed_texts_stay(line);
    assert(line.contains(line[0]));
    text::lemma_cut(line, ';');
    lemma_nothing_in_parentheses(line);
    if c.len() == 0 || !text::is_space(c.last()) {
        let s = line + seq![';'] + c;
        if c.len() == 0 {
            assert(s.last() == ';');
        } else {
            assert(s.last() == c.last());
        }
        text::trimmed_texts_stay(s);
        assert forall|i: int| 0 <= i < line.len() implies s[i] != ';' by {
            if line[i] == ';' {
                assert(line.contains(';'));
            }
        }
        text::lemma_cut_is(s, ';', line.len() as int);
        assert(s.take(line.len() as int) =~= line);
        let t = seq![';'] + c;
        let u = seq!['('] + c;
        if c.len() == 0 {
            assert(t.last() == ';' && u.last() == '(');
        } else {
            assert(t.last() == c.last() && u.last() == c.last());
        }
        text::trimmed_texts_stay(t);
        text::trimmed_texts_stay(u);
    }
    if !c.contains('(') && !c.contains(')') && !c.contains(';') {
        let s = line + seq!['('] + c + seq![')'];
        text::trimmed_texts_stay(s);
        assert forall|i: int| 0 <= i < s.len() implies s[i] != ';' by {
            if i < line.len() && line[i] == ';' {
                assert(line.contains(';'));
            }
            if line.len() < i < s.len() - 1 && s[i] == ';' {
                assert(c[i - line.len() - 1] == ';');
                assert(c.contains(';'));
            }
        }
        text::lemma_cut_is(s, ';', s.len() as int);
        assert(s.take(s.len() as int) =~= s);
        parentheses_are_left_out(line, c, seq![]);
        assert(s + Seq::<char>::empty() =~= s);
        assert(line + without_parentheses(seq![], 0) =~= line);
    }
}

/// The lines of two parts of a job are sent one part behind the other; a clean
/// line is sent as it is, and one without anything to send is left out.
pub proof fn lines_are_sent_in_order(a: Seq<Seq<char>>, b: Seq<Seq<char>>, line: Seq<char>)
    ensures
        sendable(a + b) == sendable(a) + sendable(b),
        is_clean(line) ==> sendable(a.push(line)) == sendable(a).push(line),
        uncommented(line).len() == 0 ==> sendable(a.push(line)) == sendable(a),
    decreases b.len(),
{
    assert(a.push(line).drop_last() =~= a);
    if is_clean(line) {
        clean_lines_pass_unchanged(line);
    }
    if b.len() == 0 {
        assert(a + b =~= a);
        assert(sendable(a) + sendable(b) =~= sendable(a));
    } else {
        lines_are_sent_in_order(a, b.drop_last(), line);
        assert((a + b).drop_last() =~= a + b.drop_last());
        assert((a + b).last() == b.last());
        assert(sendable(a + b) =~= sendable(a) + sendable(b));
    }
}

/// A text that cannot be read stays so, whatever follows.
pub proof fn what_cannot_be_read_stays_so(a: Seq<char>, b: Seq<char>)
    requires
        !tractable(a),
    ensures
        !tractable(a + b),
        sequence_error(a + b) == Some("it cannot be read"@),
    decreases b.len(),
{
    if b.len() == 0 {
        assert(a + b =~= a);
    } else {
        what_cannot_be_read_stays_so(a, b.drop_last());
        assert((a + b).drop_last() =~= a + b.drop_last());
    }
}

/// Words without digits, points and parentheses can always be read.
pub proof fn words_can_be_read(s: Seq<char>)
    requires
        forall|i: int|
            0 <= i < s.len() ==> !text::is_digit(#[trigger] s[i]) && s[i] != '.' && s[i] != '(',
    ensures
        tractable(s),
        scanned(s).row == 0,
    decreases s.len(),
{
    if s.len() > 0 {
        let t = s.drop_last();
        assert forall|i: int| 0 <= i < t.len() implies !text::is_digit(#[trigger] t[i]) && t[i]
            != '.' && t[i] != '(' by {
            assert(t[i] == s[i]);
        }
        assert(s[s.len() - 1] == s.last());
        words_can_be_read(t);
    }
}

/// Up to a hundred digits in a row can be read, and no more.
pub proof fn a_hundred_digits_can_be_read(s: Seq<char>)
    requires
        forall|i: int| 0 <= i < s.len() ==> text::is_digit(#[trigger] s[i]),
    ensures
        tractable(s) <==> s.len() <= 100,
        scanned(s).part is Code && scanned(s).signs is Elsewhere && !scanned(s).largest,
        s.len() <= 255 ==> scanned(s).row == s.len(),
        s.len() > 255 ==> scanned(s).row == 255,
    decreases s.len(),
{
    if s.len() > 0 {
        let t = s.drop_last();
        assert forall|i: int| 0 <= i < t.len() implies text::is_digit(#[trigger] t[i]) by {
            assert(t[i] == s[i]);
        }
        assert(s[s.len() - 1] == s.last());
        a_hundred_digits_can_be_read(t);
    }
}

/// A number with both signs cannot be read once it has a point.
pub proof fn both_signs_and_a_point_cannot_be_read(c: char, digits: Seq<char>)
    requires
        is_letter(c),
        digits.len() > 0,
        forall|i: int| 0 <= i < digits.len() ==> text::is_digit(#[trigger] digits[i]),
    ensures
        !tractable(seq![c, '+', '-'] + digits + seq!['.']),
{
    let head = seq![c, '+', '-'];
    lemma_both_signs(c, digits);
    let s = head + digits + seq!['.'];
    assert(s.drop_last() =~= head + digits);
}

proof fn lemma_both_signs(c: char, digits: Seq<char>)
    requires
        is_letter(c),
        forall|i: int| 0 <= i < digits.len() ==> text::is_digit(#[trigger] digits[i]),
    ensures
        ({
            let s = scanned(seq![c, '+', '-'] + digits);
            s.part is Code && (if digits.len() == 0 {
                s.signs is Both
            } else {
                s.signs is Digits
            })
        }),
    decreases digits.len(),
{
    let head = seq![c, '+', '-'];
    if digits.len() == 0 {
        assert(head + digits =~= head);
        assert(head.drop_last() =~= seq![c, '+']);
        assert(seq![c, '+'].drop_last() =~= seq![c]);
        assert(seq![c].drop_last() =~= seq![]);
        reveal_with_fuel(scanned, 4);
    } else {
        let t = digits.drop_last();
        assert forall|i: int| 0 <= i < t.len() implies text::is_digit(#[trigger] t[i]) by {
            assert(t[i] == digits[i]);
        }
        assert(digits[digits.len() - 1] == digits.last());
        lemma_both_signs(c, t);
        assert((head + digits).drop_last() =~= head + t);
    }
}

/// A refusal is seen with its title and its body.
pub proof fn refusals_carry_their_text(e: ConversionError)
    ensures
        refusal(Ok(())) is None,
        refusal(Err(e)) == Some((e.title@, e.body@)),
{
}

/// From the first to the last of the alphabet all letters count as letters, in
/// either case, and so does the dollar sign; digits, signs and white space do not.
pub proof fn letters_are_those_of_the_alphabet(c: char)
    ensures
        is_letter('a') && is_letter('z') && is_letter('A') && is_letter('Z') && is_letter('$'),
        'a' < c && c < 'z' ==> is_letter(c),
        'A' < c && c < 'Z' ==> is_letter(c),
        text::is_digit(c) || c == '.' || c == '+' || c == '-' || c == ' ' ==> !is_letter(c),
        c > 'z' || c < '$' ==> !is_letter(c),
{
}

} // verus!
