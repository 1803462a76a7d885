//! What the program says and sends: the console, the status line, and the
//! commands waiting for the serial link.
use std::collections::VecDeque;

use vstd::prelude::*;

use crate::layers;
use crate::message::{Glyph, Message};
use crate::message;
use crate::text;

verus! {

/// What a line of the console is.
#[derive(Debug, Clone, Copy, PartialEq, Eq, Structural)]
pub enum LineKind {
    Received,
    Sent,
    Info,
    Error,
}

/// A line of the console.
#[derive(Debug)]
pub struct ConsoleLine {
    pub text: Message,
    pub kind: LineKind,
}

/// The most lines that the console keeps.
pub const CONSOLE_MAX_LINES: usize = 1_000;

/// The link to the serial actor.
#[derive(Debug)]
pub enum Link {
    /// There is none.
    Absent,
    /// Commands can be sent.
    Open,
    /// The actor is gone; this is what sending complains about.
    Closed(String),
}

/// A command for the serial actor.
#[derive(Debug)]
pub enum Outgoing {
    /// A line, whose numbers are still to be written out.
    Line(Message),
    /// A real-time byte.
    Byte(u8),
    /// A job.
    Stream(Vec<String>),
    AbortStream,
    Disconnect,
}

/// Console, status line and outgoing commands.
#[derive(Debug)]
pub struct Talk {
    pub console_lines: VecDeque<ConsoleLine>,
    /// How many lines the console is scrolled up from its end.
    pub console_scroll: u16,
    /// Whether the console stays at its end.
    pub console_follow: bool,
    pub status_message: Option<Message>,
    /// Ticks until the status message goes, unless it stays.
    pub status_message_ttl: Option<u32>,
    pub link: Link,
    /// Commands to be sent, in order.
    pub outbox: Vec<Outgoing>,
}

/// A line of the console, with its text as glyphs.
pub struct Entry {
    pub text: Seq<Glyph>,
    pub kind: LineKind,
}

/// The link, with texts by their characters.
pub enum LinkState {
    Absent,
    Open,
    Closed(Seq<char>),
}

/// An outgoing command, with texts by their characters or glyphs.
pub enum Out {
    Line(Seq<Glyph>),
    Byte(u8),
    Stream(Seq<Seq<char>>),
    AbortStream,
    Disconnect,
}

/// What the program says and sends, with texts by their characters or glyphs.
pub struct Conversation {
    pub console: Seq<Entry>,
    pub scroll: u16,
    pub follow: bool,
    pub status: Option<Seq<Glyph>>,
    pub ttl: Option<u32>,
    pub link: LinkState,
    pub outbox: Seq<Out>,
}

impl View for ConsoleLine {
    type V = Entry;

    open spec fn view(&self) -> Entry {
        Entry { text: self.text@, kind: self.kind }
    }
}

impl View for Link {
    type V = LinkState;

    open spec fn view(&self) -> LinkState {
        match *self {
            Link::Absent => LinkState::Absent,
            Link::Open => LinkState::Open,
            Link::Closed(e) => LinkState::Closed(e@),
        }
    }
}

impl View for Outgoing {
    type V = Out;

    open spec fn view(&self) -> Out {
        match *self {
            Outgoing::Line(m) => Out::Line(m@),
            Outgoing::Byte(b) => Out::Byte(b),
            Outgoing::Stream(v) => Out::Stream(text::texts(v@)),
            Outgoing::AbortStream => Out::AbortStream,
            Outgoing::Disconnect => Out::Disconnect,
        }
    }
}

impl View for Talk {
    type V = Conversation;

    open spec fn view(&self) -> Conversation {
        Conversation {
            console: self.console_lines@.map_values(|l: ConsoleLine| l@),
            scroll: self.console_scroll,
            follow: self.console_follow,
            status: layers::shown(self.status_message),
            ttl: self.status_message_ttl,
            link: self.link@,
            outbox: self.outbox@.map_values(|o: Outgoing| o@),
        }
    }
}

/// Lines with one more; the oldest goes where there are too many.
pub open spec fn logged(lines: Seq<Entry>, line: Entry) -> Seq<Entry> {
    if lines.len() >= CONSOLE_MAX_LINES {
        lines.skip(1).push(line)
    } else {
        lines.push(line)
    }
}

impl Conversation {
    /// With a line on the console, at whose end it stays if it follows.
    pub open spec fn say(self, kind: LineKind, text: Seq<Glyph>) -> Conversation {
        Conversation {
            console: logged(self.console, Entry { text, kind }),
            scroll: if self.follow {
                0
            } else {
                self.scroll
            },
            ..self
        }
    }

    pub open spec fn inform(self, text: Seq<Glyph>) -> Conversation {
        self.say(LineKind::Info, text)
    }

    pub open spec fn complain(self, text: Seq<Glyph>) -> Conversation {
        self.say(LineKind::Error, text)
    }

    /// With another status message.
    pub open spec fn announce(self, text: Seq<Glyph>, ttl: Option<u32>) -> Conversation {
        Conversation { status: Some(text), ttl, ..self }
    }

    /// With one tick less for the status message.
    pub open spec fn ticked(self) -> Conversation {
        match self.ttl {
            None => self,
            Some(n) => if n == 0 {
                Conversation { status: None, ttl: None, ..self }
            } else {
                Conversation { ttl: Some((n - 1) as u32), ..self }
            },
        }
    }

    /// With a command in the outbox, if the link is open.
    pub open spec fn post(self, out: Out) -> Conversation {
        if self.link is Open {
            Conversation { outbox: self.outbox.push(out), ..self }
        } else {
            self
        }
    }

    /// With the actor gone, if there was one.
    pub open spec fn lost(self, complaint: Seq<char>) -> Conversation {
        if self.link is Absent {
            self
        } else {
            Conversation { link: LinkState::Closed(complaint), ..self }
        }
    }

    /// With a line sent and noted on the console, or the complaint that it could
    /// not be sent; without a link, nothing.
    pub open spec fn send(self, line: Seq<Glyph>) -> Conversation {
        match self.link {
            LinkState::Open => self.post(Out::Line(line)).say(LineKind::Sent, line),
            LinkState::Closed(e) => self.complain(
                message::plain("Send failed: "@) + message::plain(e),
            ),
            LinkState::Absent => self,
        }
    }
}

impl Talk {
    /// The console keeps no more lines than it may.
    pub open spec fn wf(self) -> bool {
        self.console_lines@.len() <= CONSOLE_MAX_LINES
    }

    /// An empty console that follows, no status message, and no link.
    pub fn new() -> (r: Talk)
        ensures
            r.wf(),
            r@ == (Conversation {
                console: seq![],
                scroll: 0,
                follow: true,
                status: None,
                ttl: None,
                link: LinkState::Absent,
                outbox: seq![],
            }),
    {
        let r = Talk {
            console_lines: VecDeque::new(),
            console_scroll: 0,
            console_follow: true,
            status_message: None,
            status_message_ttl: None,
            link: Link::Absent,
            outbox: Vec::new(),
        };
        assert(r@.console == Seq::<Entry>::empty());
        assert(r@.outbox == Seq::<Out>::empty());
        r
    }

    /// Put a line on the console.
    pub fn push_line(&mut self, text: Message, kind: LineKind)
        requires
            old(self).wf(),
        ensures
            final(self).wf(),
            final(self)@ == old(self)@.say(kind, text@),
            final(self).link == old(self).link,
    {
        let ghost before = self@.console;
        let ghost line = Entry { text: text@, kind };
        if self.console_lines.len() >= CONSOLE_MAX_LINES {
            let _ = self.console_lines.pop_front();
            assert(self@.console == before.skip(1));
        }
        let ghost kept = self@.console;
        self.console_lines.push_back(ConsoleLine { text, kind });
        assert(self@.console == kept.push(line));
        if self.console_follow {
            self.console_scroll = 0;
        }
    }

    /// Put an informational line on the console.
    pub fn push_info(&mut self, text: Message)
        requires
            old(self).wf(),
        ensures
            final(self).wf(),
            final(self)@ == old(self)@.inform(text@),
            final(self).link == old(self).link,
    {
        self.push_line(text, LineKind::Info);
    }

    /// Put an error on the console.
    pub fn push_error(&mut self, text: Message)
        requires
            old(self).wf(),
        ensures
            final(self).wf(),
            final(self)@ == old(self)@.complain(text@),
            final(self).link == old(self).link,
    {
        self.push_line(text, LineKind::Error);
    }

    /// Put a received line on the console.
    pub fn push_received(&mut self, text: Message)
        requires
            old(self).wf(),
        ensures
            final(self).wf(),
            final(self)@ == old(self)@.say(LineKind::Received, text@),
            final(self).link == old(self).link,
    {
        self.push_line(text, LineKind::Received);
    }

    /// Put a sent line on the console.
    pub fn push_sent(&mut self, text: Message)
        requires
            old(self).wf(),
        ensures
            final(self).wf(),
            final(self)@ == old(self)@.say(LineKind::Sent, text@),
            final(self).link == old(self).link,
    {
        self.push_line(text, LineKind::Sent);
    }

    /// Show a status message, for some ticks or until the next one.
    pub fn set_status(&mut self, text: Message, ttl_ticks: Option<u32>)
        ensures
            final(self).wf() == old(self).wf(),
            final(self)@ == old(self)@.announce(text@, ttl_ticks),
            final(self).link == old(self).link,
    {
        self.status_message = Some(text);
        self.status_message_ttl = ttl_ticks;
    }

    /// Count one tick for the status message.
    pub fn tick_status(&mut self)
        ensures
            final(self).wf() == old(self).wf(),
            final(self)@ == old(self)@.ticked(),
            final(self).link == old(self).link,
    {
        match self.status_message_ttl {
            None => {},
            Some(n) => {
                if n == 0 {
                    self.status_message = None;
                    self.status_message_ttl = None;
                } else {
                    self.status_message_ttl = Some(n - 1);
                }
            },
        }
    }

    /// Put a command into the outbox, if the link is open.
    pub fn post(&mut self, out: Outgoing) -> (r: bool)
        ensures
            final(self).wf() == old(self).wf(),
            final(self)@ == old(self)@.post(out@),
            final(self).link == old(self).link,
            r == (old(self)@.link is Open),
    {
        match self.link {
            Link::Open => {
                let ghost before = self@.outbox;
                let ghost shown = out@;
                self.outbox.push(out);
                assert(self@.outbox == before.push(shown));
                true
            },
            _ => false,
        }
    }

    /// Send a line and note it on the console.
    pub fn send(&mut self, line: Message)
        requires
            old(self).wf(),
        ensures
            final(self).wf(),
            final(self)@ == old(self)@.send(line@),
            final(self).link == old(self).link,
    {
        match &self.link {
            Link::Open => {
                let _ = self.post(Outgoing::Line(line.clone()));
                self.push_sent(line);
            },
            Link::Closed(e) => {
                let complaint = Message::text("Send failed: ").then_text(e.as_str());
                self.push_error(complaint);
            },
            Link::Absent => {},
        }
    }

    /// Note that there is an actor now.
    pub fn connect(&mut self)
        ensures
            final(self).wf() == old(self).wf(),
            final(self)@ == (Conversation { link: LinkState::Open, ..old(self)@ }),
    {
        self.link = Link::Open;
    }

    /// Note that the actor is gone, and what sending will complain about.
    pub fn lose(&mut self, complaint: String)
        ensures
            final(self).wf() == old(self).wf(),
            final(self)@ == old(self)@.lost(complaint@),
    {
        match self.link {
            Link::Absent => {},
            _ => {
                self.link = Link::Closed(complaint);
            },
        }
    }

    /// Give the actor up; what is in the outbox can still be sent.
    pub fn hang_up(&mut self)
        ensures
            final(self).wf() == old(self).wf(),
            final(self)@ == (Conversation { link: LinkState::Absent, ..old(self)@ }),
    {
        self.link = Link::Absent;
    }

    /// Take the commands to be sent.
    pub fn take_outbox(&mut self) -> (r: Vec<Outgoing>)
        ensures
            final(self).wf() == old(self).wf(),
            r == old(self).outbox,
            final(self)@ == (Conversation { outbox: seq![], ..old(self)@ }),
            final(self).link == old(self).link,
    {
        let mut out: Vec<Outgoing> = Vec::new();
        std::mem::swap(&mut out, &mut self.outbox);
        assert(self@.outbox == Seq::<Out>::empty());
        out
    }

    /// Scroll the console up.
    pub fn scroll_up(&mut self, lines: u16)
        ensures
            final(self).wf() == old(self).wf(),
            final(self)@ == (Conversation {
                follow: false,
                scroll: if old(self)@.scroll + lines > u16::MAX {
                    u16::MAX
                } else {
                    (old(self)@.scroll + lines) as u16
                },
                ..old(self)@
            }),
            final(self).link == old(self).link,
    {
        self.console_follow = false;
        self.console_scroll = self.console_scroll.saturating_add(lines);
    }

    /// Scroll the console down by one line; at its end, follow it.
    pub fn scroll_down(&mut self)
        ensures
            final(self).wf() == old(self).wf(),
            final(self)@ == (if old(self)@.scroll == 0 {
                Conversation { follow: true, ..old(self)@ }
            } else {
                Conversation { scroll: (old(self)@.scroll - 1) as u16, ..old(self)@ }
            }),
            final(self).link == old(self).link,
    {
        if self.console_scroll == 0 {
            self.console_follow = true;
        } else {
            self.console_scroll = self.console_scroll - 1;
        }
    }

    /// Scroll the console down by a page; on reaching its end, follow it.
    pub fn scroll_page_down(&mut self, page: u16)
        ensures
            final(self).wf() == old(self).wf(),
            final(self)@ == (if old(self)@.scroll <= page {
                Conversation { scroll: 0, follow: true, ..old(self)@ }
            } else {
                Conversation { scroll: (old(self)@.scroll - page) as u16, ..old(self)@ }
            }),
            final(self).link == old(self).link,
    {
        self.console_scroll = self.console_scroll.saturating_sub(page);
        if self.console_scroll == 0 {
            self.console_follow = true;
        }
    }

    /// Go to the end of the console and follow it.
    pub fn scroll_to_bottom(&mut self)
        ensures
            final(self).wf() == old(self).wf(),
            final(self)@ == (Conversation { scroll: 0, follow: true, ..old(self)@ }),
            final(self).link == old(self).link,
    {
        self.console_scroll = 0;
        self.console_follow = true;
    }

    /// Go to the start of the console.
    pub fn scroll_to_top(&mut self)
        requires
            old(self).wf(),
        ensures
            final(self).wf(),
            final(self)@ == (Conversation {
                scroll: old(self)@.console.len() as u16,
                follow: false,
                ..old(self)@
            }),
            final(self).link == old(self).link,
    {
        self.console_follow = false;
        self.console_scroll = self.console_lines.len() as u16;
    }
}

// ── Laws ──────────────────────────────────────────────────────────────────────

/// The console never holds more lines than it may, and the latest line is always
/// its last.
pub proof fn console_is_bounded(c: Conversation, kind: LineKind, text: Seq<Glyph>)
    requires
        c.console.len() <= CONSOLE_MAX_LINES,
    ensures
        c.say(kind, text).console.len() <= CONSOLE_MAX_LINES,
        c.say(kind, text).console.last() == (Entry { text, kind }),
{
}

/// Saying something keeps all lines but, in a full console, the oldest.
pub proof fn console_drops_only_the_oldest(
    c: Conversation,
    kind: LineKind,
    text: Seq<Glyph>,
    i: int,
)
    requires
        c.console.len() <= CONSOLE_MAX_LINES,
        0 <= i < c.console.len(),
        i > 0 || c.console.len() < CONSOLE_MAX_LINES,
    ensures
        ({
            let after = c.say(kind, text).console;
            let shift: int = if c.console.len() == CONSOLE_MAX_LINES {
                1
            } else {
                0
            };
            after[i - shift] == c.console[i]
        }),
{
}

/// Nothing is sent without an open link.
pub proof fn nothing_is_sent_without_a_link(c: Conversation, line: Seq<Glyph>, out: Out)
    requires
        !(c.link is Open),
    ensures
        c.send(line).outbox == c.outbox,
        c.post(out) == c,
{
}

/// A status message is gone once its ticks are used up, and not before.
pub proof fn status_lasts_its_ticks(c: Conversation, n: u32)
    requires
        c.ttl == Some(n),
    ensures
        n == 0 ==> c.ticked().status is None,
        n > 0 ==> c.ticked().status == c.status && c.ticked().ttl == Some((n - 1) as u32),
{
}

/// What is said is put on the console under its kind; a console that follows shows
/// its end, another one stays where it is, and nothing else changes.
pub proof fn what_is_said_is_put_on_the_console(c: Conversation, kind: LineKind, text: Seq<Glyph>)
    ensures
        ({
            let after = c.say(kind, text);
            &&& after.console.len() > 0
            &&& after.console.last().text == text && after.console.last().kind == kind
            &&& c.follow ==> after.scroll == 0
            &&& !c.follow ==> after.scroll == c.scroll
            &&& after.follow == c.follow && after.status == c.status && after.ttl == c.ttl
            &&& after.link == c.link && after.outbox == c.outbox
        }),
        c.inform(text).console.last().kind is Info && c.inform(text).console.last().text == text,
        c.complain(text).console.last().kind is Error && c.complain(text).console.last().text
            == text,
        c.inform(text).outbox == c.outbox && c.complain(text).outbox == c.outbox,
        c.inform(text).status == c.status && c.complain(text).status == c.status,
{
}

/// The console keeps a thousand lines, and a full one stays full.
pub proof fn the_console_keeps_a_thousand_lines(lines: Seq<Entry>, line: Entry)
    ensures
        lines.len() < 1000 ==> logged(lines, line) == lines.push(line),
        lines.len() == 1000 ==> logged(lines, line).len() == 1000 && logged(lines, line).take(999)
            == lines.skip(1),
{
    if lines.len() == 1000 {
        assert(logged(lines, line).take(999) =~= lines.skip(1));
    }
}

/// A line that is sent over an open link is put into the outbox behind all others
/// and on the console as sent; over a link that is lost only the complaint is put
/// on the console, and without a link nothing happens.
pub proof fn a_sent_line_is_on_its_way(c: Conversation, line: Seq<Glyph>)
    ensures
        c.link is Open ==> {
            &&& c.send(line).outbox == c.outbox.push(Out::Line(line))
            &&& c.send(line).console.last().kind is Sent
            &&& c.send(line).console.last().text == line
        },
        c.link matches LinkState::Closed(e) ==> {
            &&& c.send(line).outbox == c.outbox
            &&& c.send(line).console.last().kind is Error
            &&& c.send(line).console.last().text == message::plain("Send failed: "@ + e)
        },
        c.link is Absent ==> c.send(line) == c,
        c.send(line).link == c.link && c.send(line).status == c.status,
{
    if let LinkState::Closed(e) = c.link {
        message::texts_are_shown_in_order("Send failed: "@, e, 0);
    }
}

/// A command that is posted over an open link is put behind all others, and
/// changes nothing else.
pub proof fn a_posted_command_is_put_last(c: Conversation, out: Out)
    requires
        c.link is Open,
    ensures
        c.post(out).outbox == c.outbox.push(out),
        c.post(out).console == c.console && c.post(out).link == c.link && c.post(out).status
            == c.status && c.post(out).ttl == c.ttl && c.post(out).scroll == c.scroll
            && c.post(out).follow == c.follow,
{
}

/// A status message replaces the one before it, lasts as long as it was told to,
/// and without an end it stays.
pub proof fn an_announcement_replaces_the_last(c: Conversation, text: Seq<Glyph>, ttl: Option<u32>)
    ensures
        c.announce(text, ttl).status == Some(text),
        c.announce(text, ttl).ttl == ttl,
        c.announce(text, ttl).console == c.console && c.announce(text, ttl).outbox == c.outbox
            && c.announce(text, ttl).link == c.link,
        c.ttl is None ==> c.ticked() == c,
        c.ticked().console == c.console && c.ticked().outbox == c.outbox && c.ticked().link
            == c.link,
        c.ttl == Some(0u32) ==> c.ticked().ttl is None,
{
}

/// A lost link keeps what sending will complain about; one that was never there is
/// not lost.
pub proof fn a_lost_link_keeps_its_complaint(c: Conversation, complaint: Seq<char>)
    ensures
        c.link is Absent ==> c.lost(complaint) == c,
        !(c.link is Absent) ==> c.lost(complaint).link == LinkState::Closed(complaint),
        c.lost(complaint).outbox == c.outbox && c.lost(complaint).console == c.console,
{
}

} // verus!
