//! The command line: a text with a cursor, and the history of commands.
//!
//! The cursor is a byte offset into the text that always falls between two
//! characters.
use vstd::prelude::*;
use vstd::string::*;
use vstd::utf8::*;

use crate::text;

verus! {

// ── Byte offsets ──────────────────────────────────────────────────────────────

/// The byte offset of the `n`th character.
pub open spec fn offset(s: Seq<char>, n: int) -> int {
    encode_utf8(s.take(n)).len() as int
}

/// Whether a byte offset falls between two characters or at an end.
pub open spec fn is_offset(s: Seq<char>, i: int) -> bool {
    exists|n: int| 0 <= n <= s.len() && #[trigger] offset(s, n) == i
}

/// The number of characters before a byte offset.
pub open spec fn position(s: Seq<char>, i: int) -> int {
    choose|n: int| 0 <= n <= s.len() && #[trigger] offset(s, n) == i
}

proof fn lemma_encode_concat(a: Seq<char>, b: Seq<char>)
    ensures
        encode_utf8(a + b) == encode_utf8(a) + encode_utf8(b),
    decreases a.len(),
{
    if a.len() == 0 {
        assert(a + b == b);
        assert(encode_utf8(a) + encode_utf8(b) == encode_utf8(b));
    } else {
        assert((a + b).drop_first() == a.drop_first() + b);
        lemma_encode_concat(a.drop_first(), b);
        let head = encode_scalar(a[0] as u32);
        assert(head + (encode_utf8(a.drop_first()) + encode_utf8(b)) == (head + encode_utf8(
            a.drop_first(),
        )) + encode_utf8(b));
    }
}

proof fn lemma_encode_injective(a: Seq<char>, b: Seq<char>)
    requires
        encode_utf8(a) == encode_utf8(b),
    ensures
        a == b,
{
    encode_utf8_decode_utf8(a);
    encode_utf8_decode_utf8(b);
}

proof fn lemma_offset_step(s: Seq<char>, n: int)
    requires
        0 <= n < s.len(),
    ensures
        offset(s, n) < offset(s, n + 1),
{
    let c = seq![s[n]];
    assert(s.take(n + 1) == s.take(n) + c);
    lemma_encode_concat(s.take(n), c);
    assert(encode_scalar(c[0] as u32).len() >= 1);
    assert(encode_utf8(c).len() >= 1);
}

proof fn lemma_offsets_increase(s: Seq<char>, m: int, n: int)
    requires
        0 <= m < n <= s.len(),
    ensures
        offset(s, m) < offset(s, n),
    decreases n - m,
{
    lemma_offset_step(s, n - 1);
    if m < n - 1 {
        lemma_offsets_increase(s, m, n - 1);
    }
}

/// The position of an offset is the number of characters before it.
pub proof fn offset_has_one_position(s: Seq<char>, n: int)
    requires
        0 <= n <= s.len(),
    ensures
        is_offset(s, offset(s, n)),
        position(s, offset(s, n)) == n,
{
    let m = position(s, offset(s, n));
    assert(0 <= m <= s.len() && offset(s, m) == offset(s, n));
    if m < n {
        lemma_offsets_increase(s, m, n);
    } else if n < m {
        lemma_offsets_increase(s, n, m);
    }
}

proof fn lemma_offset_ends(s: Seq<char>)
    ensures
        offset(s, 0) == 0,
        offset(s, s.len() as int) == encode_utf8(s).len(),
{
    assert(s.take(0) == Seq::<char>::empty());
    assert(s.take(s.len() as int) == s);
}

proof fn lemma_boundary_of_concat(a: Seq<char>, b: Seq<char>)
    ensures
        is_char_boundary(encode_utf8(a) + encode_utf8(b), encode_utf8(a).len() as int),
    decreases a.len(),
{
    encode_utf8_valid_utf8(a + b);
    lemma_encode_concat(a, b);
    let bytes = encode_utf8(a + b);
    if a.len() == 0 {
    } else {
        encode_utf8_first_scalar(a + b);
        assert((a + b)[0] == a[0]);
        let rest = a.drop_first();
        assert((a + b).drop_first() == rest + b);
        assert(pop_first_scalar(bytes) == encode_utf8(rest + b));
        lemma_encode_concat(rest, b);
        lemma_boundary_of_concat(rest, b);
    }
}

/// The offsets between characters are the character boundaries of the bytes.
proof fn lemma_boundary_is_offset(s: Seq<char>, i: int)
    requires
        0 <= i <= encode_utf8(s).len(),
    ensures
        is_char_boundary(encode_utf8(s), i) <==> is_offset(s, i),
{
    let bytes = encode_utf8(s);
    encode_utf8_valid_utf8(s);
    encode_utf8_decode_utf8(s);
    if is_char_boundary(bytes, i) {
        decode_utf8_split(bytes, i);
        valid_utf8_split(bytes, i);
        let left = decode_utf8(bytes.subrange(0, i));
        let right = decode_utf8(bytes.subrange(i, bytes.len() as int));
        decode_utf8_encode_utf8(bytes.subrange(0, i));
        let n = left.len() as int;
        assert(s == left + right);
        assert(s.take(n) == left);
        assert(offset(s, n) == i);
    }
    if is_offset(s, i) {
        let n = position(s, i);
        assert(s == s.take(n) + s.skip(n));
        lemma_encode_concat(s.take(n), s.skip(n));
        lemma_boundary_of_concat(s.take(n), s.skip(n));
    }
}

/// The largest character boundary below `pos`.
pub fn prev_char_boundary(s: &str, pos: usize) -> (r: usize)
    requires
        0 < pos,
    ensures
        r < pos,
        is_char_boundary(s.spec_bytes(), r as int),
        forall|i: int| r < i < pos ==> !is_char_boundary(s.spec_bytes(), i),
{
    proof {
        encode_utf8_valid_utf8(s@);
    }
    let mut p: usize = pos - 1;
    while !s.is_char_boundary(p)
        invariant
            p < pos,
            valid_utf8(s.spec_bytes()),
            forall|i: int| p < i < pos ==> !is_char_boundary(s.spec_bytes(), i),
        decreases p,
    {
        p = p - 1;
    }
    p
}

/// The least character boundary above `pos`, or `pos + 1` where `pos` is not
/// within the text.
pub fn next_char_boundary(s: &str, pos: usize) -> (r: usize)
    requires
        pos < usize::MAX,
    ensures
        pos < r,
        pos >= s.spec_bytes().len() ==> r == pos + 1,
        pos < s.spec_bytes().len() ==> r <= s.spec_bytes().len() && is_char_boundary(
            s.spec_bytes(),
            r as int,
        ),
        forall|i: int| pos < i < r ==> !is_char_boundary(s.spec_bytes(), i),
{
    proof {
        encode_utf8_valid_utf8(s@);
        is_char_boundary_start_end_of_seq(s.spec_bytes());
    }
    let len = s.as_bytes().len();
    let mut p: usize = pos + 1;
    while p < len && !s.is_char_boundary(p)
        invariant
            pos < p,
            pos >= len ==> p == pos + 1,
            pos < len ==> p <= len,
            len == s.spec_bytes().len(),
            forall|i: int| pos < i < p ==> !is_char_boundary(s.spec_bytes(), i),
        decreases len - p,
    {
        p = p + 1;
    }
    p
}

/// The boundary before the `n`th character's end is its start, and the one behind
/// its start is its end.
proof fn lemma_neighbours(s: Seq<char>, n: int, i: int)
    requires
        0 <= n < s.len(),
        offset(s, n) < i < offset(s, n + 1),
    ensures
        !is_char_boundary(encode_utf8(s), i),
{
    lemma_offset_ends(s);
    if n + 1 < s.len() {
        lemma_offsets_increase(s, n + 1, s.len() as int);
    }
    lemma_boundary_is_offset(s, i);
    if is_offset(s, i) {
        let m = position(s, i);
        assert(0 <= m <= s.len() && offset(s, m) == i);
        if m < n {
            lemma_offsets_increase(s, m, n);
        } else if m > n + 1 {
            lemma_offsets_increase(s, n + 1, m);
        }
    }
}

fn byte_len(s: &str) -> (r: usize)
    ensures
        r == encode_utf8(s@).len(),
{
    s.as_bytes().len()
}

/// The text before the cursor and the text behind it.
fn halves(s: &String, cursor: usize) -> (r: (String, String))
    requires
        is_offset(s@, cursor as int),
    ensures
        r.0@ == s@.take(position(s@, cursor as int)),
        r.1@ == s@.skip(position(s@, cursor as int)),
{
    let ghost n = position(s@, cursor as int);
    proof {
        assert(0 <= n <= s@.len() && offset(s@, n) == cursor);
        assert(s@ == s@.take(n) + s@.skip(n));
        lemma_encode_concat(s@.take(n), s@.skip(n));
        lemma_boundary_is_offset(s@, cursor as int);
    }
    let (a, b) = s.as_str().split_at(cursor);
    proof {
        let left = encode_utf8(s@.take(n));
        let right = encode_utf8(s@.skip(n));
        assert((left + right).subrange(0, left.len() as int) == left);
        assert((left + right).subrange(left.len() as int, (left + right).len() as int) == right);
        lemma_encode_injective(a@, s@.take(n));
        lemma_encode_injective(b@, s@.skip(n));
    }
    (a.to_owned(), b.to_owned())
}

// ── The command line ──────────────────────────────────────────────────────────

/// The command line and its history.
#[derive(Debug)]
pub struct Input {
    pub buffer: String,
    /// The cursor, as a byte offset into `buffer`.
    pub cursor: usize,
    /// The commands entered so far, the latest at the end.
    pub history: Vec<String>,
    /// The entry of the history that is shown, if one is.
    pub history_idx: Option<usize>,
    /// What was being typed before the history was entered.
    pub draft: String,
}

/// The command line, with texts by their characters and the cursor as a number
/// of characters.
pub struct CommandLine {
    pub text: Seq<char>,
    pub at: int,
    pub history: Seq<Seq<char>>,
    pub recalled: Option<usize>,
    pub draft: Seq<char>,
}

impl View for Input {
    type V = CommandLine;

    open spec fn view(&self) -> CommandLine {
        CommandLine {
            text: self.buffer@,
            at: position(self.buffer@, self.cursor as int),
            history: text::texts(self.history@),
            recalled: self.history_idx,
            draft: self.draft@,
        }
    }
}

impl CommandLine {
    pub open spec fn before(self) -> Seq<char> {
        self.text.take(self.at)
    }

    pub open spec fn behind(self) -> Seq<char> {
        self.text.skip(self.at)
    }

    /// The same history around another text and cursor.
    pub open spec fn edited(self, text: Seq<char>, at: int) -> CommandLine {
        CommandLine { text, at, ..self }
    }

    pub open spec fn inserted(self, c: char) -> CommandLine {
        self.edited(self.before().push(c) + self.behind(), self.at + 1)
    }

    pub open spec fn deleted_back(self) -> CommandLine {
        if self.at == 0 {
            self
        } else {
            self.edited(self.before().drop_last() + self.behind(), self.at - 1)
        }
    }

    pub open spec fn deleted_forward(self) -> CommandLine {
        if self.at == self.text.len() {
            self
        } else {
            self.edited(self.before() + self.behind().skip(1), self.at)
        }
    }

    pub open spec fn moved(self, at: int) -> CommandLine {
        self.edited(self.text, at)
    }

    pub open spec fn killed(self) -> CommandLine {
        self.edited(self.before(), self.at)
    }

    /// The line as it is after the command in it was entered.
    pub open spec fn submitted(self) -> CommandLine {
        CommandLine {
            text: seq![],
            at: 0,
            history: if text::trimmed(self.text).len() == 0 {
                self.history
            } else {
                self.history.push(self.text)
            },
            recalled: None,
            draft: seq![],
        }
    }

    /// One step back in the history; what was being typed is kept as the draft.
    pub open spec fn recalled_earlier(self) -> CommandLine {
        if self.history.len() == 0 {
            self
        } else {
            match self.recalled {
                None => {
                    let i = (self.history.len() - 1) as usize;
                    let t = self.history[i as int];
                    CommandLine {
                        text: t,
                        at: t.len() as int,
                        recalled: Some(i),
                        draft: self.text,
                        ..self
                    }
                },
                Some(i) => if i == 0 {
                    self.moved(self.text.len() as int)
                } else {
                    let t = self.history[i - 1];
                    CommandLine {
                        text: t,
                        at: t.len() as int,
                        recalled: Some((i - 1) as usize),
                        ..self
                    }
                },
            }
        }
    }

    /// One step forward in the history; behind its end stands the draft.
    pub open spec fn recalled_later(self) -> CommandLine {
        match self.recalled {
            None => self.moved(self.text.len() as int),
            Some(i) => if i + 1 >= self.history.len() {
                CommandLine {
                    text: self.draft,
                    at: self.draft.len() as int,
                    recalled: None,
                    draft: seq![],
                    ..self
                }
            } else {
                let t = self.history[i + 1];
                CommandLine {
                    text: t,
                    at: t.len() as int,
                    recalled: Some((i + 1) as usize),
                    ..self
                }
            },
        }
    }

    /// The start of the word before the cursor.
    pub open spec fn word_start(self) -> int {
        back_over(self.text, back_over(self.text, self.at, true), false)
    }

    /// The start of the word behind the cursor.
    pub open spec fn word_end(self) -> int {
        forth_over(self.text, forth_over(self.text, self.at, false), true)
    }
}

/// Going back from `n` over characters that are white space, or are not.
pub open spec fn back_over(s: Seq<char>, n: int, space: bool) -> int
    decreases n,
{
    if n > 0 && text::is_space(s[n - 1]) == space {
        back_over(s, n - 1, space)
    } else {
        n
    }
}

/// Going forth from `n` over characters that are white space, or are not.
pub open spec fn forth_over(s: Seq<char>, n: int, space: bool) -> int
    decreases s.len() - n,
{
    if n < s.len() && text::is_space(s[n]) == space {
        forth_over(s, n + 1, space)
    } else {
        n
    }
}

impl Input {
    /// The cursor falls between two characters, and the entry shown exists.
    pub closed spec fn wf(self) -> bool {
        &&& is_offset(self.buffer@, self.cursor as int)
        &&& self.history_idx matches Some(i) ==> i < self.history@.len()
    }

    /// An empty command line without a history.
    pub fn new() -> (r: Input)
        ensures
            r.wf(),
            r@ == (CommandLine {
                text: seq![],
                at: 0,
                history: seq![],
                recalled: None,
                draft: seq![],
            }),
    {
        let r = Input {
            buffer: String::new(),
            cursor: 0,
            history: Vec::new(),
            history_idx: None,
            draft: String::new(),
        };
        proof {
            lemma_offset_ends(r.buffer@);
            offset_has_one_position(r.buffer@, 0);
            assert(text::texts(r.history@) == Seq::<Seq<char>>::empty());
            assert(r.buffer@ == Seq::<char>::empty());
            assert(r.draft@ == Seq::<char>::empty());
        }
        r
    }

    /// Replace the text by `left` and `right`, with the cursor between them.
    fn set_halves(&mut self, left: String, right: String)
        ensures
            final(self)@ == old(self)@.edited(left@ + right@, left@.len() as int),
            final(self).history_idx == old(self).history_idx,
            final(self).history == old(self).history,
            is_offset(final(self).buffer@, final(self).cursor as int),
    {
        let cursor = byte_len(left.as_str());
        let ghost n = left@.len() as int;
        let ghost l = left@;
        let ghost r = right@;
        let mut buffer = left;
        buffer.append(right.as_str());
        proof {
            assert(buffer@.take(n) == l);
            offset_has_one_position(buffer@, n);
        }
        self.buffer = buffer;
        self.cursor = cursor;
    }

    /// Put the cursor behind the last character.
    fn to_end(&mut self)
        ensures
            final(self)@ == old(self)@.moved(old(self)@.text.len() as int),
            final(self).history_idx == old(self).history_idx,
            final(self).history == old(self).history,
            final(self).buffer == old(self).buffer,
            is_offset(final(self).buffer@, final(self).cursor as int),
    {
        self.cursor = byte_len(self.buffer.as_str());
        proof {
            lemma_offset_ends(self.buffer@);
            offset_has_one_position(self.buffer@, self.buffer@.len() as int);
        }
    }

    /// The text before the cursor, the character under it, and the text behind
    /// that; at the end there is a space under the cursor.
    pub fn around_cursor(&self) -> (r: (String, String, String))
        requires
            self.wf(),
        ensures
            r.0@ == self@.before(),
            self@.at < self@.text.len() ==> r.1@ == seq![self@.text[self@.at]] && r.2@
                == self@.text.skip(self@.at + 1),
            self@.at == self@.text.len() ==> r.1@ == seq![' '] && r.2@.len() == 0,
            0 <= self@.at <= self@.text.len(),
    {
        let n = self.chars_before();
        let v = text::to_chars(self.buffer.as_str());
        let left = text::string_of(&v, 0, n);
        assert(left@ == self@.before());
        if n < v.len() {
            let under = text::string_of(&v, n, n + 1);
            let right = text::string_of(&v, n + 1, v.len());
            assert(under@ == seq![self@.text[self@.at]]);
            assert(right@ == self@.text.skip(self@.at + 1));
            (left, under, right)
        } else {
            (left, text::repeated(' ', 1), String::new())
        }
    }

    /// Insert a character at the cursor.
    pub fn insert_char(&mut self, ch: char)
        requires
            old(self).wf(),
        ensures
            final(self).wf(),
            final(self)@ == old(self)@.inserted(ch),
    {
        let (mut left, right) = halves(&self.buffer, self.cursor);
        left.push(ch);
        self.set_halves(left, right);
    }

    /// Delete the character before the cursor.
    pub fn delete_back(&mut self)
        requires
            old(self).wf(),
        ensures
            final(self).wf(),
            final(self)@ == old(self)@.deleted_back(),
    {
        proof {
            self.lemma_cursor();
        }
        if self.cursor == 0 {
            return;
        }
        let start = prev_char_boundary(self.buffer.as_str(), self.cursor);
        proof {
            self.lemma_previous(start as int);
        }
        let (left, _) = halves(&self.buffer, start);
        let (_, right) = halves(&self.buffer, self.cursor);
        assert(self@.before().drop_last() == left@);
        self.set_halves(left, right);
    }

    /// Delete the character behind the cursor.
    pub fn delete_forward(&mut self)
        requires
            old(self).wf(),
        ensures
            final(self).wf(),
            final(self)@ == old(self)@.deleted_forward(),
    {
        proof {
            self.lemma_cursor();
        }
        if self.cursor >= byte_len(self.buffer.as_str()) {
            return;
        }
        let end = next_char_boundary(self.buffer.as_str(), self.cursor);
        proof {
            self.lemma_next(end as int);
        }
        let (left, _) = halves(&self.buffer, self.cursor);
        let (_, right) = halves(&self.buffer, end);
        assert(self@.behind().skip(1) == right@);
        self.set_halves(left, right);
    }

    /// Move the cursor one character to the left.
    pub fn cursor_left(&mut self)
        requires
            old(self).wf(),
        ensures
            final(self).wf(),
            final(self)@ == old(self)@.moved(if old(self)@.at > 0 {
                old(self)@.at - 1
            } else {
                0
            }),
    {
        proof {
            self.lemma_cursor();
        }
        if self.cursor == 0 {
            return;
        }
        let start = prev_char_boundary(self.buffer.as_str(), self.cursor);
        proof {
            self.lemma_previous(start as int);
        }
        self.cursor = start;
    }

    /// Move the cursor one character to the right.
    pub fn cursor_right(&mut self)
        requires
            old(self).wf(),
        ensures
            final(self).wf(),
            final(self)@ == old(self)@.moved(if old(self)@.at < old(self)@.text.len() {
                old(self)@.at + 1
            } else {
                old(self)@.text.len() as int
            }),
    {
        proof {
            self.lemma_cursor();
        }
        if self.cursor >= byte_len(self.buffer.as_str()) {
            return;
        }
        let end = next_char_boundary(self.buffer.as_str(), self.cursor);
        proof {
            self.lemma_next(end as int);
        }
        self.cursor = end;
    }

    /// Move the cursor before the first character.
    pub fn cursor_home(&mut self)
        requires
            old(self).wf(),
        ensures
            final(self).wf(),
            final(self)@ == old(self)@.moved(0),
    {
        self.cursor = 0;
        proof {
            lemma_offset_ends(self.buffer@);
            offset_has_one_position(self.buffer@, 0);
        }
    }

    /// Move the cursor behind the last character.
    pub fn cursor_end(&mut self)
        requires
            old(self).wf(),
        ensures
            final(self).wf(),
            final(self)@ == old(self)@.moved(old(self)@.text.len() as int),
    {
        self.to_end();
    }

    /// Move the cursor to the start of the word before it.
    pub fn word_left(&mut self)
        requires
            old(self).wf(),
        ensures
            final(self).wf(),
            final(self)@ == old(self)@.moved(old(self)@.word_start()),
    {
        let v = text::to_chars(self.buffer.as_str());
        let mut n = self.chars_before();
        let ghost s = self.buffer@;
        let ghost start = n as int;
        while n > 0 && text::space(v[n - 1])
            invariant
                v@ == s,
                n <= v@.len(),
                back_over(s, n as int, true) == back_over(s, start, true),
            decreases n,
        {
            n = n - 1;
        }
        let ghost middle = n as int;
        while n > 0 && !text::space(v[n - 1])
            invariant
                v@ == s,
                n <= v@.len(),
                back_over(s, n as int, false) == back_over(s, middle, false),
            decreases n,
        {
            n = n - 1;
        }
        self.move_to(&v, n);
    }

    /// Move the cursor to the start of the word behind it.
    pub fn word_right(&mut self)
        requires
            old(self).wf(),
        ensures
            final(self).wf(),
            final(self)@ == old(self)@.moved(old(self)@.word_end()),
    {
        let v = text::to_chars(self.buffer.as_str());
        let mut n = self.chars_before();
        let ghost s = self.buffer@;
        let ghost start = n as int;
        while n < v.len() && !text::space(v[n])
            invariant
                v@ == s,
                n <= v@.len(),
                forth_over(s, n as int, false) == forth_over(s, start, false),
            decreases v@.len() - n,
        {
            n = n + 1;
        }
        let ghost middle = n as int;
        while n < v.len() && text::space(v[n])
            invariant
                v@ == s,
                n <= v@.len(),
                forth_over(s, n as int, true) == forth_over(s, middle, true),
            decreases v@.len() - n,
        {
            n = n + 1;
        }
        self.move_to(&v, n);
    }

    fn chars_before(&self) -> (r: usize)
        requires
            self.wf(),
        ensures
            r == self@.at,
            0 <= self@.at <= self@.text.len(),
    {
        proof {
            self.lemma_cursor();
        }
        let (left, _) = halves(&self.buffer, self.cursor);
        left.as_str().unicode_len()
    }

    fn move_to(&mut self, v: &Vec<char>, n: usize)
        requires
            old(self).wf(),
            v@ == old(self).buffer@,
            n <= v@.len(),
        ensures
            final(self).wf(),
            final(self)@ == old(self)@.moved(n as int),
    {
        let left = text::string_of(v, 0, n);
        proof {
            assert(self.buffer@.take(n as int) == left@);
            offset_has_one_position(self.buffer@, n as int);
        }
        self.cursor = byte_len(left.as_str());
    }

    /// Delete the whole text.
    pub fn clear(&mut self)
        requires
            old(self).wf(),
        ensures
            final(self).wf(),
            final(self)@ == old(self)@.edited(seq![], 0),
    {
        self.set_halves(String::new(), String::new());
        assert(self.buffer@ == Seq::<char>::empty());
    }

    /// Delete the whole text and leave the history.
    pub fn escape(&mut self)
        requires
            old(self).wf(),
        ensures
            final(self).wf(),
            final(self)@ == (CommandLine { recalled: None, ..old(self)@.edited(seq![], 0) }),
    {
        self.clear();
        self.history_idx = None;
    }

    /// Delete the text behind the cursor.
    pub fn kill_to_end(&mut self)
        requires
            old(self).wf(),
        ensures
            final(self).wf(),
            final(self)@ == old(self)@.killed(),
    {
        proof {
            self.lemma_cursor();
        }
        let (left, _) = halves(&self.buffer, self.cursor);
        let ghost l = left@;
        self.set_halves(left, String::new());
        assert(l + Seq::<char>::empty() == l);
    }

    /// Enter the command: empty the line and note the command in the history if
    /// it is not blank.
    pub fn submit(&mut self) -> (r: String)
        requires
            old(self).wf(),
        ensures
            final(self).wf(),
            r@ == old(self)@.text,
            final(self)@ == old(self)@.submitted(),
    {
        let line = self.buffer.clone();
        let ghost before = self.history@;
        self.clear();
        self.history_idx = None;
        self.draft = String::new();
        if !text::is_empty(text::trim(line.as_str()).as_str()) {
            let entry = line.clone();
            self.history.push(entry);
            assert(text::texts(self.history@) == text::texts(before).push(line@));
        }
        assert(self.draft@ == Seq::<char>::empty());
        line
    }

    /// Go one step back in the history.
    pub fn history_up(&mut self)
        requires
            old(self).wf(),
        ensures
            final(self).wf(),
            final(self)@ == old(self)@.recalled_earlier(),
    {
        if self.history.len() == 0 {
            return;
        }
        match self.history_idx {
            None => {
                self.draft = self.buffer.clone();
                let idx = self.history.len() - 1;
                self.history_idx = Some(idx);
                self.buffer = self.history[idx].clone();
            },
            Some(i) => {
                if i > 0 {
                    self.history_idx = Some(i - 1);
                    self.buffer = self.history[i - 1].clone();
                }
            },
        }
        self.to_end();
    }

    /// Go one step forward in the history.
    pub fn history_down(&mut self)
        requires
            old(self).wf(),
        ensures
            final(self).wf(),
            final(self)@ == old(self)@.recalled_later(),
    {
        let count = self.history.len();
        match self.history_idx {
            None => {},
            Some(i) => {
                if i + 1 >= count {
                    self.history_idx = None;
                    self.buffer = self.draft.clone();
                    self.draft = String::new();
                    assert(self.draft@ == Seq::<char>::empty());
                } else {
                    self.history_idx = Some(i + 1);
                    self.buffer = self.history[i + 1].clone();
                }
            },
        }
        self.to_end();
    }

    /// The cursor of a command line lies within its text, and its byte offset is
    /// that of its position.
    pub proof fn lemma_cursor(&self)
        requires
            self.wf(),
        ensures
            0 <= self@.at <= self@.text.len(),
            offset(self@.text, self@.at) == self.cursor,
            self.cursor <= encode_utf8(self@.text).len(),
            self.cursor == 0 <==> self@.at == 0,
            self.cursor == encode_utf8(self@.text).len() <==> self@.at == self@.text.len(),
    {
        let s = self@.text;
        let n = self@.at;
        assert(0 <= n <= s.len() && offset(s, n) == self.cursor);
        lemma_offset_ends(s);
        if n > 0 {
            lemma_offsets_increase(s, 0, n);
        }
        if n < s.len() {
            lemma_offsets_increase(s, n, s.len() as int);
        }
    }

    proof fn lemma_previous(&self, start: int)
        requires
            self.wf(),
            0 < self.cursor,
            0 <= start < self.cursor,
            is_char_boundary(encode_utf8(self.buffer@), start),
            forall|i: int|
                start < i < self.cursor ==> !is_char_boundary(encode_utf8(self.buffer@), i),
        ensures
            start == offset(self@.text, self@.at - 1),
            is_offset(self@.text, start),
            position(self@.text, start) == self@.at - 1,
    {
        self.lemma_cursor();
        let s = self@.text;
        let n = self@.at;
        let p = offset(s, n - 1);
        lemma_offset_step(s, n - 1);
        offset_has_one_position(s, n - 1);
        lemma_boundary_is_offset(s, p);
        if start > p {
            lemma_neighbours(s, n - 1, start);
        }
    }

    proof fn lemma_next(&self, end: int)
        requires
            self.wf(),
            self.cursor < encode_utf8(self.buffer@).len(),
            self.cursor < end <= encode_utf8(self.buffer@).len(),
            is_char_boundary(encode_utf8(self.buffer@), end),
            forall|i: int|
                self.cursor < i < end ==> !is_char_boundary(encode_utf8(self.buffer@), i),
        ensures
            end == offset(self@.text, self@.at + 1),
            is_offset(self@.text, end),
            position(self@.text, end) == self@.at + 1,
    {
        self.lemma_cursor();
        let s = self@.text;
        let n = self@.at;
        let p = offset(s, n + 1);
        lemma_offset_step(s, n);
        lemma_offset_ends(s);
        if n + 1 < s.len() {
            lemma_offsets_increase(s, n + 1, s.len() as int);
        }
        offset_has_one_position(s, n + 1);
        lemma_boundary_is_offset(s, p);
        if end < p {
            lemma_neighbours(s, n, end);
        }
    }
}

// ── Laws ──────────────────────────────────────────────────────────────────────

/// Deleting backwards undoes inserting.
pub proof fn delete_undoes_insert(line: CommandLine, c: char)
    requires
        0 <= line.at <= line.text.len(),
    ensures
        line.inserted(c).deleted_back() == line,
{
    let more = line.inserted(c);
    assert(more.before() == line.before().push(c));
    assert(more.behind() == line.behind());
    assert(line.before().push(c).drop_last() == line.before());
    assert(line.before() + line.behind() == line.text);
}

/// Deleting forward is moving right and deleting backwards.
pub proof fn delete_forward_is_right_and_back(line: CommandLine)
    requires
        0 <= line.at < line.text.len(),
    ensures
        line.deleted_forward() == line.moved(line.at + 1).deleted_back(),
{
    let next = line.moved(line.at + 1);
    assert(next.before().drop_last() == line.before());
    assert(next.behind() == line.behind().skip(1));
}

/// Going up into the history and down again brings back what was being typed,
/// with the cursor at its end.
pub proof fn history_keeps_the_draft(line: CommandLine)
    requires
        line.recalled is None,
        0 < line.history.len() <= usize::MAX,
    ensures
        line.recalled_earlier().recalled_later() == (CommandLine {
            draft: seq![],
            ..line.moved(line.text.len() as int)
        }),
{
}

/// Going up shows the latest command; a command that was entered is found there.
pub proof fn entered_command_is_recalled(line: CommandLine)
    requires
        text::trimmed(line.text).len() > 0,
        line.history.len() < usize::MAX,
    ensures
        line.submitted().recalled_earlier().text == line.text,
{
}

/// A character that is inserted stands where the cursor was, with the cursor
/// behind it; all others keep their order, and the history stays.
pub proof fn an_inserted_character_stands_at_the_cursor(line: CommandLine, c: char, i: int)
    requires
        0 <= line.at <= line.text.len(),
    ensures
        ({
            let after = line.inserted(c);
            &&& after.text.len() == line.text.len() + 1 && after.at == line.at + 1
            &&& after.text[line.at] == c
            &&& 0 <= i < line.at ==> after.text[i] == line.text[i]
            &&& line.at <= i < line.text.len() ==> after.text[i + 1] == line.text[i]
            &&& after.history == line.history && after.recalled == line.recalled && after.draft
                == line.draft
        }),
{
}

/// Deleting backwards takes the character before the cursor and no other, and at
/// the start nothing; deleting forward takes the one behind it, and at the end
/// nothing.
pub proof fn one_character_is_deleted(line: CommandLine, i: int)
    requires
        0 <= line.at <= line.text.len(),
    ensures
        line.at == 0 ==> line.deleted_back() == line,
        line.at > 0 ==> {
            let after = line.deleted_back();
            &&& after.text.len() == line.text.len() - 1 && after.at == line.at - 1
            &&& 0 <= i < line.at - 1 ==> after.text[i] == line.text[i]
            &&& line.at <= i < line.text.len() ==> after.text[i - 1] == line.text[i]
            &&& after.history == line.history
        },
        line.at == line.text.len() ==> line.deleted_forward() == line,
        line.at < line.text.len() ==> {
            let after = line.deleted_forward();
            &&& after.text.len() == line.text.len() - 1 && after.at == line.at
            &&& 0 <= i < line.at ==> after.text[i] == line.text[i]
            &&& line.at < i < line.text.len() ==> after.text[i - 1] == line.text[i]
            &&& after.history == line.history
        },
{
}

/// Moving the cursor keeps the text, and deleting to the end keeps what stands
/// before the cursor.
pub proof fn moving_keeps_the_text(line: CommandLine, at: int)
    requires
        0 <= line.at <= line.text.len(),
    ensures
        line.moved(at).text == line.text && line.moved(at).at == at,
        line.moved(at).history == line.history && line.moved(at).draft == line.draft
            && line.moved(at).recalled == line.recalled,
        line.killed().text == line.text.subrange(0, line.at) && line.killed().at == line.at,
        line.killed().history == line.history,
        line.before() + line.behind() == line.text,
        line.before().len() == line.at,
{
    assert(line.killed().text =~= line.text.subrange(0, line.at));
    assert(line.before() + line.behind() =~= line.text);
}

/// An entered command empties the line, leaves the history where it was being
/// looked through, and is its last entry unless it is blank.
pub proof fn an_entered_command_is_noted(line: CommandLine)
    ensures
        ({
            let after = line.submitted();
            &&& after.text.len() == 0 && after.at == 0 && after.recalled is None && after.draft.len()
                == 0
            &&& text::trimmed(line.text).len() > 0 ==> after.history == line.history.push(line.text)
            &&& text::trimmed(line.text).len() == 0 ==> after.history == line.history
        }),
{
}

/// Going back in the history shows one entry earlier each time, up to the first,
/// and going forward one later each time; the cursor stands at the end, and the
/// history itself stays.
pub proof fn the_history_is_gone_through_step_by_step(line: CommandLine, i: usize)
    requires
        line.history.len() <= usize::MAX,
        line.recalled == Some(i),
        i < line.history.len(),
    ensures
        ({
            let (up, down) = (line.recalled_earlier(), line.recalled_later());
            &&& up.history == line.history && down.history == line.history
            &&& up.at == up.text.len() && down.at == down.text.len()
            &&& i > 0 ==> up.recalled == Some((i - 1) as usize) && up.text == line.history[i - 1]
                && up.draft == line.draft
            &&& i == 0 ==> up.recalled == Some(0usize) && up.text == line.text
            &&& i + 1 < line.history.len() ==> down.recalled == Some((i + 1) as usize) && down.text
                == line.history[i + 1] && down.draft == line.draft
            &&& i + 1 == line.history.len() ==> down.recalled is None && down.text == line.draft
        }),
{
}

/// Without an entry of the history on the line, going back shows the latest one
/// and keeps the text as the draft; going forward does nothing but go to the end.
pub proof fn the_history_begins_with_the_latest(line: CommandLine)
    requires
        line.recalled is None,
        line.history.len() <= usize::MAX,
    ensures
        line.history.len() == 0 ==> line.recalled_earlier() == line,
        line.history.len() > 0 ==> {
            let up = line.recalled_earlier();
            &&& up.text == line.history.last() && up.draft == line.text && up.at == up.text.len()
            &&& up.recalled == Some((line.history.len() - 1) as usize)
        },
        line.recalled_later().text == line.text && line.recalled_later().at == line.text.len(),
        line.recalled_later().recalled is None && line.recalled_later().history == line.history,
{
}

/// The word before the cursor begins behind white space or at the start; between
/// it and the cursor stand its characters and then white space only.
pub proof fn a_word_begins_behind_white_space(line: CommandLine)
    requires
        0 <= line.at <= line.text.len(),
    ensures
        ({
            let n = line.word_start();
            &&& 0 <= n <= line.at
            &&& n > 0 ==> text::is_space(line.text[n - 1])
            &&& exists|m: int| #[trigger]
                between_words(line.text, n, m, line.at) && (n == m ==> n == 0)
        }),
{
    let s = line.text;
    let m = back_over(s, line.at, true);
    lemma_back_over(s, line.at, true);
    lemma_back_over(s, m, false);
    assert(between_words(s, line.word_start(), m, line.at));
}

/// Characters that are not white space from `n` to `m`, and white space from there
/// to `k`.
pub open spec fn between_words(s: Seq<char>, n: int, m: int, k: int) -> bool {
    &&& 0 <= n <= m <= k <= s.len()
    &&& forall|i: int| n <= i < m ==> !text::is_space(#[trigger] s[i])
    &&& forall|i: int| m <= i < k ==> text::is_space(#[trigger] s[i])
}

proof fn lemma_back_over(s: Seq<char>, n: int, space: bool)
    requires
        0 <= n <= s.len(),
    ensures
        0 <= back_over(s, n, space) <= n,
        forall|i: int|
            back_over(s, n, space) <= i < n ==> text::is_space(#[trigger] s[i]) == space,
        back_over(s, n, space) > 0 ==> text::is_space(s[back_over(s, n, space) - 1]) != space,
    decreases n,
{
    if n > 0 && text::is_space(s[n - 1]) == space {
        lemma_back_over(s, n - 1, space);
    }
}

proof fn lemma_forth_over(s: Seq<char>, n: int, space: bool)
    requires
        0 <= n <= s.len(),
    ensures
        n <= forth_over(s, n, space) <= s.len(),
        forall|i: int|
            n <= i < forth_over(s, n, space) ==> text::is_space(#[trigger] s[i]) == space,
        forth_over(s, n, space) < s.len() ==> text::is_space(s[forth_over(s, n, space)]) != space,
    decreases s.len() - n,
{
    if n < s.len() && text::is_space(s[n]) == space {
        lemma_forth_over(s, n + 1, space);
    }
}

/// The word behind the cursor begins where white space ends, or there is none and
/// the text ends; between the cursor and it stand the rest of a word and then
/// white space only.
pub proof fn the_next_word_begins_where_white_space_ends(line: CommandLine)
    requires
        0 <= line.at <= line.text.len(),
    ensures
        ({
            let n = line.word_end();
            &&& line.at <= n <= line.text.len()
            &&& n < line.text.len() ==> !text::is_space(line.text[n])
            &&& exists|m: int| #[trigger]
                between_words(line.text, line.at, m, n) && (m == n ==> n == line.text.len())
        }),
{
    let s = line.text;
    let m = forth_over(s, line.at, false);
    lemma_forth_over(s, line.at, false);
    lemma_forth_over(s, m, true);
    assert(between_words(s, line.at, m, line.word_end()));
}

} // verus!
