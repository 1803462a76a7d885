//! Text handling over sequences of characters: trimming, splitting, ASCII case
//! folding, and decimal numbers.
use vstd::prelude::*;

verus! {

// ── std functions ─────────────────────────────────────────────────────────────

/// `String::push` appends the given character to the end of the string.
pub assume_specification[ String::push ](s: &mut String, c: char)
    ensures
        final(s)@ == old(s)@.push(c),
;

// ── Characters ────────────────────────────────────────────────────────────────

/// The characters with the Unicode property `White_Space`.
pub open spec fn is_space(c: char) -> bool {
    let n = c as u32;
    ||| 9 <= n <= 13
    ||| n == 0x20
    ||| n == 0x85
    ||| n == 0xa0
    ||| n == 0x1680
    ||| 0x2000 <= n <= 0x200a
    ||| n == 0x2028
    ||| n == 0x2029
    ||| n == 0x202f
    ||| n == 0x205f
    ||| n == 0x3000
}

/// Whether `c` is white space.
pub fn space(c: char) -> (r: bool)
    ensures
        r == is_space(c),
{
    let n: u32 = c as u32;
    (9 <= n && n <= 13) || n == 0x20 || n == 0x85 || n == 0xa0 || n == 0x1680 || (0x2000 <= n && n
        <= 0x200a) || n == 0x2028 || n == 0x2029 || n == 0x202f || n == 0x205f || n == 0x3000
}

pub open spec fn is_digit(c: char) -> bool {
    '0' <= c <= '9'
}

/// The value of a decimal digit.
pub open spec fn digit_value(c: char) -> nat {
    (c as nat - '0' as nat) as nat
}

/// The decimal digit of a value below ten.
pub open spec fn digit_char(d: nat) -> char {
    (d + '0' as nat) as char
}

/// `c` with an ASCII capital replaced by its small letter.
pub open spec fn lower_char(c: char) -> char {
    if 'A' <= c <= 'Z' {
        (c as u32 + 32) as char
    } else {
        c
    }
}

/// `c` with an ASCII small letter replaced by its capital.
pub open spec fn upper_char(c: char) -> char {
    if 'a' <= c <= 'z' {
        (c as u32 - 32) as char
    } else {
        c
    }
}

pub open spec fn lower(s: Seq<char>) -> Seq<char> {
    s.map_values(|c: char| lower_char(c))
}

pub open spec fn upper(s: Seq<char>) -> Seq<char> {
    s.map_values(|c: char| upper_char(c))
}

fn lower_of(c: char) -> (r: char)
    ensures
        r == lower_char(c),
{
    if 'A' <= c && c <= 'Z' {
        (c as u8 + 32) as char
    } else {
        c
    }
}

fn upper_of(c: char) -> (r: char)
    ensures
        r == upper_char(c),
{
    if 'a' <= c && c <= 'z' {
        (c as u8 - 32) as char
    } else {
        c
    }
}

// ── Strings and character vectors ─────────────────────────────────────────────

/// The characters of each string.
pub open spec fn texts(v: Seq<String>) -> Seq<Seq<char>> {
    v.map_values(|s: String| s@)
}

/// The characters of `s`.
pub fn to_chars(s: &str) -> (r: Vec<char>)
    ensures
        r@ == s@,
{
    let mut out: Vec<char> = Vec::new();
    for c in it: s.chars()
        invariant
            out@ == it.seq().take(it.index()),
            it.seq() == s@,
    {
        out.push(c);
    }
    out
}

/// The string of the characters `lo..hi` of `v`.
pub fn string_of(v: &Vec<char>, lo: usize, hi: usize) -> (r: String)
    requires
        lo <= hi <= v@.len(),
    ensures
        r@ == v@.subrange(lo as int, hi as int),
{
    let mut out = String::new();
    let mut i: usize = lo;
    while i < hi
        invariant
            lo <= i <= hi <= v@.len(),
            out@ == v@.subrange(lo as int, i as int),
        decreases hi - i,
    {
        out.push(v[i]);
        i = i + 1;
    }
    out
}

/// Whether two strings hold the same characters.
pub fn same(a: &str, b: &str) -> (r: bool)
    ensures
        r == (a@ == b@),
{
    a.to_owned() == b.to_owned()
}

/// Whether `s` has no characters.
pub fn is_empty(s: &str) -> (r: bool)
    ensures
        r == (s@.len() == 0),
{
    s.unicode_len() == 0
}

/// `a` followed by `b`.
pub fn joined(a: &str, b: &str) -> (r: String)
    ensures
        r@ == a@ + b@,
{
    let mut out = a.to_owned();
    out.append(b);
    out
}

/// `s` with ASCII capitals replaced by small letters.
pub fn to_lower(s: &str) -> (r: String)
    ensures
        r@ == lower(s@),
{
    let v = to_chars(s);
    let mut out = String::new();
    let mut i: usize = 0;
    while i < v.len()
        invariant
            v@ == s@,
            i <= v@.len(),
            out@ == lower(s@.take(i as int)),
        decreases v@.len() - i,
    {
        assert(s@.take(i as int + 1) == s@.take(i as int).push(s@[i as int]));
        assert(lower(s@.take(i as int + 1)) == lower(s@.take(i as int)).push(
            lower_char(s@[i as int]),
        ));
        out.push(lower_of(v[i]));
        i = i + 1;
    }
    assert(s@.take(i as int) == s@);
    out
}

/// `s` with ASCII small letters replaced by capitals.
pub fn to_upper(s: &str) -> (r: String)
    ensures
        r@ == upper(s@),
{
    let v = to_chars(s);
    let mut out = String::new();
    let mut i: usize = 0;
    while i < v.len()
        invariant
            v@ == s@,
            i <= v@.len(),
            out@ == upper(s@.take(i as int)),
        decreases v@.len() - i,
    {
        assert(s@.take(i as int + 1) == s@.take(i as int).push(s@[i as int]));
        assert(upper(s@.take(i as int + 1)) == upper(s@.take(i as int)).push(
            upper_char(s@[i as int]),
        ));
        out.push(upper_of(v[i]));
        i = i + 1;
    }
    assert(s@.take(i as int) == s@);
    out
}

/// Whether `a` and `b` are equal up to the case of ASCII letters.
pub fn same_ignoring_case(a: &str, b: &str) -> (r: bool)
    ensures
        r == (lower(a@) == lower(b@)),
{
    to_lower(a) == to_lower(b)
}

// ── Prefixes and searches ─────────────────────────────────────────────────────

pub open spec fn starts(s: Seq<char>, p: Seq<char>) -> bool {
    p.len() <= s.len() && s.take(p.len() as int) == p
}

/// What follows the prefix `p` in `s`, if `s` starts with it.
pub open spec fn after(s: Seq<char>, p: Seq<char>) -> Option<Seq<char>> {
    if starts(s, p) {
        Some(s.skip(p.len() as int))
    } else {
        None
    }
}

/// The view of an optional string.
pub open spec fn opt(s: Option<String>) -> Option<Seq<char>> {
    match s {
        Some(t) => Some(t@),
        None => None,
    }
}

/// Whether `s` starts with `p`.
pub fn starts_with(s: &str, p: &str) -> (r: bool)
    ensures
        r == starts(s@, p@),
{
    match strip_prefix(s, p) {
        Some(_) => true,
        None => false,
    }
}

/// What follows `p` in `s`, if `s` starts with `p`.
pub fn strip_prefix(s: &str, p: &str) -> (r: Option<String>)
    ensures
        opt(r) == after(s@, p@),
{
    let a = to_chars(s);
    let b = to_chars(p);
    if b.len() > a.len() {
        return None;
    }
    let mut i: usize = 0;
    while i < b.len()
        invariant
            a@ == s@,
            b@ == p@,
            i <= b@.len() <= a@.len(),
            s@.take(i as int) == p@.take(i as int),
        decreases b@.len() - i,
    {
        if a[i] != b[i] {
            assert(s@.take(p@.len() as int)[i as int] != p@[i as int]);
            return None;
        }
        assert(s@.take(i as int + 1) == s@.take(i as int).push(s@[i as int]));
        assert(p@.take(i as int + 1) == p@.take(i as int).push(p@[i as int]));
        i = i + 1;
    }
    assert(p@.take(i as int) == p@);
    assert(s@.subrange(i as int, s@.len() as int) == s@.skip(p@.len() as int));
    Some(string_of(&a, i, a.len()))
}

/// The position of the first `c` in `s`, or the length of `s` where there is none.
pub open spec fn cut(s: Seq<char>, c: char) -> int
    decreases s.len(),
{
    if s.len() == 0 || s[0] == c {
        0
    } else {
        1 + cut(s.skip(1), c)
    }
}

/// `cut` stops at the first occurrence.
pub proof fn lemma_cut(s: Seq<char>, c: char)
    ensures
        0 <= cut(s, c) <= s.len(),
        cut(s, c) < s.len() ==> s[cut(s, c)] == c,
        forall|i: int| 0 <= i < cut(s, c) ==> s[i] != c,
        cut(s, c) < s.len() <==> s.contains(c),
    decreases s.len(),
{
    if s.len() != 0 && s[0] != c {
        let t = s.skip(1);
        lemma_cut(t, c);
        assert forall|i: int| 0 <= i < cut(s, c) implies s[i] != c by {
            if i > 0 {
                assert(t[i - 1] == s[i]);
            }
        }
        if s.contains(c) {
            let i = choose|i: int| 0 <= i < s.len() && s[i] == c;
            assert(t[i - 1] == c);
        }
        if t.contains(c) {
            let i = choose|i: int| 0 <= i < t.len() && t[i] == c;
            assert(s[i + 1] == c);
        }
    }
}

/// `cut` is the only position with these properties.
pub proof fn lemma_cut_is(s: Seq<char>, c: char, n: int)
    requires
        0 <= n <= s.len(),
        n < s.len() ==> s[n] == c,
        forall|i: int| 0 <= i < n ==> s[i] != c,
    ensures
        cut(s, c) == n,
    decreases n,
{
    lemma_cut(s, c);
    let m = cut(s, c);
    if m < n {
        assert(s[m] != c);
    } else if n < m {
        assert(s[n] != c);
    }
}

fn cut_at(v: &Vec<char>, from: usize, c: char) -> (r: usize)
    requires
        from <= v@.len(),
    ensures
        from <= r <= v@.len(),
        r - from == cut(v@.skip(from as int), c),
{
    let mut i: usize = from;
    while i < v.len() && v[i] != c
        invariant
            from <= i <= v@.len(),
            forall|k: int| from <= k < i ==> v@[k] != c,
        decreases v@.len() - i,
    {
        i = i + 1;
    }
    proof {
        lemma_cut_is(v@.skip(from as int), c, i - from);
    }
    i
}

/// Whether `c` occurs in `s`.
pub fn contains(s: &str, c: char) -> (r: bool)
    ensures
        r == s@.contains(c),
{
    let v = to_chars(s);
    let i = cut_at(&v, 0, c);
    proof {
        assert(v@.skip(0) == s@);
        lemma_cut(s@, c);
    }
    i < v.len()
}

// ── Splitting ─────────────────────────────────────────────────────────────────

/// The pieces of `s` between the occurrences of `c`.
pub open spec fn split(s: Seq<char>, c: char) -> Seq<Seq<char>>
    decreases s.len(),
    via split_decreases
{
    let i = cut(s, c);
    if i < s.len() {
        seq![s.take(i)] + split(s.skip(i + 1), c)
    } else {
        seq![s]
    }
}

#[via_fn]
proof fn split_decreases(s: Seq<char>, c: char) {
    lemma_cut(s, c);
}

/// A split has at least one piece.
pub proof fn lemma_split_nonempty(s: Seq<char>, c: char)
    ensures
        split(s, c).len() >= 1,
        split(s, c)[0] == s.take(cut(s, c)),
{
    lemma_cut(s, c);
    reveal_with_fuel(split, 1);
    if cut(s, c) >= s.len() {
        assert(s.take(cut(s, c)) == s);
    }
}

/// The parts of `s` before and after the first `c`.
pub open spec fn split_first(s: Seq<char>, c: char) -> Option<(Seq<char>, Seq<char>)> {
    let i = cut(s, c);
    if i < s.len() {
        Some((s.take(i), s.skip(i + 1)))
    } else {
        None
    }
}

/// At most `n` pieces: all but the last are cut at the first occurrences of `c`.
pub open spec fn splitn(s: Seq<char>, n: nat, c: char) -> Seq<Seq<char>>
    decreases n,
{
    if n == 0 {
        seq![]
    } else if n == 1 {
        seq![s]
    } else {
        match split_first(s, c) {
            Some((a, b)) => seq![a] + splitn(b, (n - 1) as nat, c),
            None => seq![s],
        }
    }
}

/// The position of the last `c` in `s`, or -1.
pub open spec fn last_cut(s: Seq<char>, c: char) -> int
    decreases s.len(),
{
    if s.len() == 0 {
        -1
    } else if s.last() == c {
        s.len() - 1
    } else {
        last_cut(s.drop_last(), c)
    }
}

/// The parts of `s` before and after the last `c`.
pub open spec fn split_last(s: Seq<char>, c: char) -> Option<(Seq<char>, Seq<char>)> {
    let i = last_cut(s, c);
    if i >= 0 {
        Some((s.take(i), s.skip(i + 1)))
    } else {
        None
    }
}

/// The view of an optional pair of strings.
pub open spec fn opt2(s: Option<(String, String)>) -> Option<(Seq<char>, Seq<char>)> {
    match s {
        Some((a, b)) => Some((a@, b@)),
        None => None,
    }
}

/// The pieces of `s` between the occurrences of `c`.
pub fn split_on(s: &str, c: char) -> (r: Vec<String>)
    ensures
        texts(r@) == split(s@, c),
{
    let v = to_chars(s);
    let mut out: Vec<String> = Vec::new();
    let mut from: usize = 0;
    assert(v@.skip(0) == s@);
    loop
        invariant
            v@ == s@,
            from <= v@.len(),
            texts(out@) + split(v@.skip(from as int), c) == split(s@, c),
        decreases v@.len() - from,
    {
        let i = cut_at(&v, from, c);
        let piece = string_of(&v, from, i);
        let ghost rest = v@.skip(from as int);
        let ghost before = out@;
        proof {
            lemma_cut(rest, c);
            assert(piece@ == rest.take(i - from));
        }
        out.push(piece);
        assert(texts(out@) == texts(before).push(piece@));
        if i == v.len() {
            assert(rest.take(i - from) == rest);
            assert(texts(out@) == texts(before) + seq![rest]);
            return out;
        }
        assert(rest.skip(i - from + 1) == v@.skip(i + 1));
        assert(texts(before) + (seq![rest.take(i - from)] + split(v@.skip(i + 1), c)) == texts(out@)
            + split(v@.skip(i + 1), c));
        from = i + 1;
    }
}

/// The parts of `s` before and after its first `c`.
pub fn split_once(s: &str, c: char) -> (r: Option<(String, String)>)
    ensures
        opt2(r) == split_first(s@, c),
{
    let v = to_chars(s);
    let i = cut_at(&v, 0, c);
    assert(v@.skip(0) == s@);
    if i == v.len() {
        return None;
    }
    assert(s@.take(i as int) == s@.subrange(0, i as int));
    assert(s@.skip(i + 1) == s@.subrange(i + 1, s@.len() as int));
    Some((string_of(&v, 0, i), string_of(&v, i + 1, v.len())))
}

/// At most `n` pieces of `s`, cut at the first occurrences of `c`.
pub fn split_n(s: &str, n: usize, c: char) -> (r: Vec<String>)
    ensures
        texts(r@) == splitn(s@, n as nat, c),
    decreases n,
{
    let mut out: Vec<String> = Vec::new();
    if n == 0 {
        assert(texts(out@) == splitn(s@, 0, c));
        return out;
    }
    let mut rest = s.to_owned();
    let mut left: usize = n;
    while left > 1
        invariant
            1 <= left <= n,
            texts(out@) + splitn(rest@, left as nat, c) == splitn(s@, n as nat, c),
        decreases left,
    {
        match split_once(rest.as_str(), c) {
            Some((a, b)) => {
                let ghost before = out@;
                out.push(a);
                assert(texts(out@) == texts(before).push(a@));
                assert(texts(before) + (seq![a@] + splitn(b@, (left - 1) as nat, c)) == texts(out@)
                    + splitn(b@, (left - 1) as nat, c));
                rest = b;
                left = left - 1;
            },
            None => {
                let ghost before = out@;
                let ghost last = rest@;
                out.push(rest);
                assert(texts(out@) == texts(before).push(last));
                assert(texts(before) + seq![last] == texts(out@));
                return out;
            },
        }
    }
    let ghost before = out@;
    let ghost last = rest@;
    out.push(rest);
    assert(texts(out@) == texts(before).push(last));
    assert(texts(before) + seq![last] == texts(out@));
    out
}

/// The parts of `s` before and after its last `c`.
pub fn rsplit_once(s: &str, c: char) -> (r: Option<(String, String)>)
    ensures
        opt2(r) == split_last(s@, c),
{
    let v = to_chars(s);
    let mut i: usize = v.len();
    assert(s@.take(s@.len() as int) == s@);
    while i > 0
        invariant
            v@ == s@,
            i <= v@.len(),
            last_cut(s@, c) == last_cut(s@.take(i as int), c),
        decreases i,
    {
        let ghost t = s@.take(i as int);
        assert(t.drop_last() == s@.take(i - 1));
        if v[i - 1] == c {
            assert(s@.take(i - 1) == s@.subrange(0, i - 1));
            assert(s@.skip(i as int) == s@.subrange(i as int, s@.len() as int));
            return Some((string_of(&v, 0, i - 1), string_of(&v, i, v.len())));
        }
        i = i - 1;
    }
    None
}

/// The text before a line ending, without a carriage return in front of it.
pub open spec fn without_cr(s: Seq<char>) -> Seq<char> {
    if s.len() > 0 && s.last() == '\r' {
        s.drop_last()
    } else {
        s
    }
}

/// The lines of `s`; a line ends in a line feed, with or without a carriage
/// return before it, and the last line may lack its ending.
pub open spec fn lines(s: Seq<char>) -> Seq<Seq<char>>
    decreases s.len(),
    via lines_decreases
{
    if s.len() == 0 {
        seq![]
    } else {
        let i = cut(s, '\n');
        if i < s.len() {
            seq![without_cr(s.take(i))] + lines(s.skip(i + 1))
        } else {
            seq![s]
        }
    }
}

#[via_fn]
proof fn lines_decreases(s: Seq<char>) {
    lemma_cut(s, '\n');
}

/// The lines of `s`.
pub fn lines_of(s: &str) -> (r: Vec<String>)
    ensures
        texts(r@) == lines(s@),
{
    let v = to_chars(s);
    let mut out: Vec<String> = Vec::new();
    let mut from: usize = 0;
    assert(v@.skip(0) == s@);
    while from < v.len()
        invariant
            v@ == s@,
            from <= v@.len(),
            texts(out@) + lines(v@.skip(from as int)) == lines(s@),
        decreases v@.len() - from,
    {
        let i = cut_at(&v, from, '\n');
        let ghost rest = v@.skip(from as int);
        let ghost before = out@;
        proof {
            lemma_cut(rest, '\n');
            assert(rest.take(i - from) == v@.subrange(from as int, i as int));
        }
        if i == v.len() {
            let piece = string_of(&v, from, i);
            out.push(piece);
            assert(texts(out@) == texts(before).push(piece@));
            assert(rest.take(i - from) == rest);
            assert(texts(out@) == texts(before) + seq![rest]);
            return out;
        }
        let end: usize = if i > from && v[i - 1] == '\r' {
            i - 1
        } else {
            i
        };
        let piece = string_of(&v, from, end);
        assert(piece@ == without_cr(rest.take(i - from)));
        out.push(piece);
        assert(texts(out@) == texts(before).push(piece@));
        assert(rest.skip(i - from + 1) == v@.skip(i + 1));
        assert(texts(before) + (seq![piece@] + lines(v@.skip(i + 1))) == texts(out@) + lines(
            v@.skip(i + 1),
        ));
        from = i + 1;
    }
    assert(v@.skip(from as int) == Seq::<char>::empty());
    assert(texts(out@) + Seq::<Seq<char>>::empty() == texts(out@));
    out
}

// ── Trimming ──────────────────────────────────────────────────────────────────

pub open spec fn trim_start(s: Seq<char>) -> Seq<char>
    decreases s.len(),
{
    if s.len() > 0 && is_space(s[0]) {
        trim_start(s.skip(1))
    } else {
        s
    }
}

pub open spec fn trim_end(s: Seq<char>) -> Seq<char>
    decreases s.len(),
{
    if s.len() > 0 && is_space(s.last()) {
        trim_end(s.drop_last())
    } else {
        s
    }
}

/// `s` without white space at either end.
pub open spec fn trimmed(s: Seq<char>) -> Seq<char> {
    trim_end(trim_start(s))
}

/// `s` without white space at either end.
pub fn trim(s: &str) -> (r: String)
    ensures
        r@ == trimmed(s@),
{
    let v = to_chars(s);
    let mut lo: usize = 0;
    assert(v@.skip(0) == s@);
    while lo < v.len() && space(v[lo])
        invariant
            v@ == s@,
            lo <= v@.len(),
            trim_start(v@.skip(lo as int)) == trim_start(s@),
        decreases v@.len() - lo,
    {
        assert(v@.skip(lo as int).skip(1) == v@.skip(lo + 1));
        lo = lo + 1;
    }
    let mut hi: usize = v.len();
    assert(v@.skip(lo as int) == v@.subrange(lo as int, hi as int));
    while hi > lo && space(v[hi - 1])
        invariant
            v@ == s@,
            lo <= hi <= v@.len(),
            trim_end(v@.subrange(lo as int, hi as int)) == trimmed(s@),
        decreases hi,
    {
        assert(v@.subrange(lo as int, hi as int).drop_last() == v@.subrange(lo as int, hi - 1));
        hi = hi - 1;
    }
    string_of(&v, lo, hi)
}

pub open spec fn is_line_end(c: char) -> bool {
    c == '\r' || c == '\n'
}

/// `s` without the carriage returns and line feeds at its end.
pub open spec fn without_line_end(s: Seq<char>) -> Seq<char>
    decreases s.len(),
{
    if s.len() > 0 && is_line_end(s.last()) {
        without_line_end(s.drop_last())
    } else {
        s
    }
}

/// `s` without the carriage returns and line feeds at its end.
pub fn trim_line_end(s: &str) -> (r: String)
    ensures
        r@ == without_line_end(s@),
{
    let v = to_chars(s);
    let mut hi: usize = v.len();
    assert(s@.subrange(0, hi as int) == s@);
    while hi > 0 && (v[hi - 1] == '\r' || v[hi - 1] == '\n')
        invariant
            v@ == s@,
            hi <= v@.len(),
            without_line_end(v@.subrange(0, hi as int)) == without_line_end(s@),
        decreases hi,
    {
        assert(v@.subrange(0, hi as int).drop_last() == v@.subrange(0, hi - 1));
        hi = hi - 1;
    }
    string_of(&v, 0, hi)
}

// ── Words ─────────────────────────────────────────────────────────────────────

/// The length of the longest prefix of `s` without white space.
pub open spec fn word_len(s: Seq<char>) -> int
    decreases s.len(),
{
    if s.len() == 0 || is_space(s[0]) {
        0
    } else {
        1 + word_len(s.skip(1))
    }
}

/// A word ends at the end of the text or before white space.
pub proof fn lemma_word_len(s: Seq<char>)
    ensures
        0 <= word_len(s) <= s.len(),
        forall|i: int| 0 <= i < word_len(s) ==> !is_space(#[trigger] s[i]),
        word_len(s) < s.len() ==> is_space(s[word_len(s)]),
    decreases s.len(),
{
    if s.len() > 0 && !is_space(s[0]) {
        let t = s.skip(1);
        lemma_word_len(t);
        assert forall|i: int| 0 <= i < word_len(s) implies !is_space(#[trigger] s[i]) by {
            if i > 0 {
                assert(t[i - 1] == s[i]);
            }
        }
    }
}

/// The words of `s`: its longest runs of characters that are not white space.
pub open spec fn words(s: Seq<char>) -> Seq<Seq<char>>
    decreases s.len(),
    via words_decreases
{
    if s.len() == 0 {
        seq![]
    } else if is_space(s[0]) {
        words(s.skip(1))
    } else {
        seq![s.take(word_len(s))] + words(s.skip(word_len(s)))
    }
}

#[via_fn]
proof fn words_decreases(s: Seq<char>) {
    lemma_word_len(s);
}

/// The words of `s`.
pub fn words_of(s: &str) -> (r: Vec<String>)
    ensures
        texts(r@) == words(s@),
{
    let v = to_chars(s);
    let mut out: Vec<String> = Vec::new();
    let mut i: usize = 0;
    assert(v@.skip(0) == s@);
    while i < v.len()
        invariant
            v@ == s@,
            i <= v@.len(),
            texts(out@) + words(v@.skip(i as int)) == words(s@),
        decreases v@.len() - i,
    {
        let ghost rest = v@.skip(i as int);
        if space(v[i]) {
            assert(rest.skip(1) == v@.skip(i + 1));
            i = i + 1;
        } else {
            let mut j: usize = i;
            while j < v.len() && !space(v[j])
                invariant
                    i <= j <= v@.len(),
                    word_len(v@.skip(i as int)) == j - i + word_len(v@.skip(j as int)),
                decreases v@.len() - j,
            {
                assert(v@.skip(j as int).skip(1) == v@.skip(j + 1));
                j = j + 1;
            }
            assert(word_len(v@.skip(j as int)) == 0);
            let piece = string_of(&v, i, j);
            let ghost before = out@;
            assert(piece@ == rest.take(j - i));
            out.push(piece);
            assert(texts(out@) == texts(before).push(piece@));
            assert(rest.skip(j - i) == v@.skip(j as int));
            assert(texts(before) + (seq![piece@] + words(v@.skip(j as int))) == texts(out@) + words(
                v@.skip(j as int),
            ));
            i = j;
        }
    }
    assert(v@.skip(i as int) == Seq::<char>::empty());
    assert(texts(out@) + Seq::<Seq<char>>::empty() == texts(out@));
    out
}

/// The pieces one after another, with `sep` between neighbours.
pub open spec fn join(v: Seq<Seq<char>>, sep: Seq<char>) -> Seq<char>
    decreases v.len(),
{
    if v.len() == 0 {
        seq![]
    } else if v.len() == 1 {
        v[0]
    } else {
        join(v.drop_last(), sep) + sep + v.last()
    }
}

/// The pieces one after another, with `sep` between neighbours.
pub fn join_with(v: &Vec<String>, sep: &str) -> (r: String)
    ensures
        r@ == join(texts(v@), sep@),
{
    let mut out = String::new();
    let mut i: usize = 0;
    let ghost all = texts(v@);
    while i < v.len()
        invariant
            i <= v@.len(),
            all == texts(v@),
            out@ == join(all.take(i as int), sep@),
        decreases v@.len() - i,
    {
        assert(all.take(i + 1).drop_last() == all.take(i as int));
        if i > 0 {
            out.append(sep);
        }
        out.append(v[i].as_str());
        i = i + 1;
        assert(i == 1 ==> out@ == all[0]);
    }
    assert(all.take(i as int) == all);
    out
}

// ── Decimal numbers ───────────────────────────────────────────────────────────

/// The decimal digits of `n`, without leading zeros.
pub open spec fn decimal(n: nat) -> Seq<char>
    decreases n,
{
    if n < 10 {
        seq![digit_char(n)]
    } else {
        decimal(n / 10).push(digit_char(n % 10))
    }
}

/// The decimal digits of `n`.
pub fn decimal_of(n: u64) -> (r: String)
    ensures
        r@ == decimal(n as nat),
    decreases n,
{
    let last: char = (48 + (n % 10) as u8) as char;
    let mut out = if n < 10 {
        String::new()
    } else {
        decimal_of(n / 10)
    };
    let ghost head = out@;
    out.push(last);
    assert(n < 10 ==> head.push(last) == seq![last]);
    out
}

pub open spec fn all_digits(s: Seq<char>) -> bool {
    forall|i: int| 0 <= i < s.len() ==> is_digit(#[trigger] s[i])
}

/// The number that a sequence of decimal digits denotes.
pub open spec fn digits_value(s: Seq<char>) -> nat
    decreases s.len(),
{
    if s.len() == 0 {
        0
    } else {
        digits_value(s.drop_last()) * 10 + digit_value(s.last())
    }
}

/// A natural number in decimal: digits, with or without a `+` in front.
pub open spec fn natural(s: Seq<char>) -> Option<nat> {
    let d = if s.len() > 0 && s[0] == '+' {
        s.skip(1)
    } else {
        s
    };
    if d.len() > 0 && all_digits(d) {
        Some(digits_value(d))
    } else {
        None
    }
}

/// A natural number in decimal that is at most `max`.
pub open spec fn natural_upto(s: Seq<char>, max: nat) -> Option<nat> {
    match natural(s) {
        Some(n) => if n <= max {
            Some(n)
        } else {
            None
        },
        None => None,
    }
}

/// An integer in decimal: digits, with or without a sign in front.
pub open spec fn integer(s: Seq<char>) -> Option<int> {
    if s.len() > 0 && s[0] == '-' {
        let d = s.skip(1);
        if d.len() > 0 && all_digits(d) {
            Some(-(digits_value(d) as int))
        } else {
            None
        }
    } else {
        match natural(s) {
            Some(n) => Some(n as int),
            None => None,
        }
    }
}

/// An integer in decimal in the range of an `i64`.
pub open spec fn integer_i64(s: Seq<char>) -> Option<int> {
    match integer(s) {
        Some(n) => if i64::MIN <= n <= i64::MAX {
            Some(n)
        } else {
            None
        },
        None => None,
    }
}

proof fn lemma_digits_grow(s: Seq<char>, n: int)
    requires
        0 <= n <= s.len(),
    ensures
        digits_value(s.take(n)) <= digits_value(s),
    decreases s.len() - n,
{
    if n < s.len() {
        lemma_digits_grow(s, n + 1);
        assert(s.take(n + 1).drop_last() == s.take(n));
    } else {
        assert(s.take(n) == s);
    }
}

/// The value of the digits `from..`, if they are digits, at least one, and the
/// value is at most `max`.
fn digits_from(v: &Vec<char>, from: usize, max: u128) -> (r: Option<u128>)
    requires
        from <= v@.len(),
        max <= 0x1_0000_0000_0000_0000,
    ensures
        ({
            let d = v@.skip(from as int);
            match r {
                Some(n) => d.len() > 0 && all_digits(d) && n == digits_value(d) && n <= max,
                None => !(d.len() > 0 && all_digits(d) && digits_value(d) <= max),
            }
        }),
{
    let ghost d = v@.skip(from as int);
    if from == v.len() {
        return None;
    }
    let mut i: usize = from;
    let mut n: u128 = 0;
    while i < v.len()
        invariant
            from <= i <= v@.len(),
            max <= 0x1_0000_0000_0000_0000,
            d == v@.skip(from as int),
            n <= max,
            n == digits_value(d.take(i - from)),
            all_digits(d.take(i - from)),
        decreases v@.len() - i,
    {
        let c = v[i];
        assert(d.take(i - from + 1).drop_last() == d.take(i - from));
        assert(d[i - from] == c);
        if c < '0' || c > '9' {
            return None;
        }
        n = n * 10 + (c as u32 - 48) as u128;
        assert(n == digits_value(d.take(i - from + 1)));
        if n > max {
            proof {
                lemma_digits_grow(d, i - from + 1);
            }
            return None;
        }
        i = i + 1;
    }
    assert(d.take(i - from) == d);
    Some(n)
}

/// The natural number that `s` denotes, if it is at most `max`.
pub fn parse_natural(s: &str, max: u64) -> (r: Option<u64>)
    ensures
        match r {
            Some(n) => natural_upto(s@, max as nat) == Some(n as nat),
            None => natural_upto(s@, max as nat) is None,
        },
{
    let v = to_chars(s);
    let from: usize = if v.len() > 0 && v[0] == '+' {
        1
    } else {
        0
    };
    assert(v@.skip(0) == v@);
    match digits_from(&v, from, max as u128) {
        Some(n) => Some(n as u64),
        None => None,
    }
}

/// The integer that `s` denotes, if it is in the range of an `i64`.
pub fn parse_integer(s: &str) -> (r: Option<i64>)
    ensures
        match r {
            Some(n) => integer_i64(s@) == Some(n as int),
            None => integer_i64(s@) is None,
        },
{
    let v = to_chars(s);
    if v.len() > 0 && v[0] == '-' {
        match digits_from(&v, 1, 0x8000_0000_0000_0000) {
            Some(n) => {
                if n == 0x8000_0000_0000_0000 {
                    Some(i64::MIN)
                } else {
                    Some(-(n as i64))
                }
            },
            None => None,
        }
    } else {
        match parse_natural(s, 0x7fff_ffff_ffff_ffff) {
            Some(n) => Some(n as i64),
            None => None,
        }
    }
}

// ── Decimal fractions ─────────────────────────────────────────────────────────

pub open spec fn without_sign(s: Seq<char>) -> Seq<char> {
    if s.len() > 0 && (s[0] == '+' || s[0] == '-') {
        s.skip(1)
    } else {
        s
    }
}

/// Digits, a point between or beside them or none, at least one digit in all.
pub open spec fn is_mantissa(s: Seq<char>) -> bool {
    let p = cut(s, '.');
    if p < s.len() {
        all_digits(s.take(p)) && all_digits(s.skip(p + 1)) && s.len() > 1
    } else {
        all_digits(s) && s.len() > 0
    }
}

/// A mantissa, with or without an exponent after an `e`.
pub open spec fn is_fraction(s: Seq<char>) -> bool {
    let e = cut(s, 'e');
    if e < s.len() {
        let x = without_sign(s.skip(e + 1));
        is_mantissa(s.take(e)) && x.len() > 0 && all_digits(x)
    } else {
        is_mantissa(s)
    }
}

/// The texts that denote a binary64 number: an optional sign, then a decimal
/// fraction or one of the three words, in any case.
pub open spec fn is_number(s: Seq<char>) -> bool {
    let t = lower(without_sign(s));
    t == "inf"@ || t == "infinity"@ || t == "nan"@ || is_fraction(t)
}

fn all_digits_in(v: &Vec<char>, lo: usize, hi: usize) -> (r: bool)
    requires
        lo <= hi <= v@.len(),
    ensures
        r == all_digits(v@.subrange(lo as int, hi as int)),
{
    let mut i: usize = lo;
    while i < hi
        invariant
            lo <= i <= hi <= v@.len(),
            forall|k: int| lo <= k < i ==> is_digit(#[trigger] v@[k]),
        decreases hi - i,
    {
        if v[i] < '0' || v[i] > '9' {
            assert(!is_digit(v@.subrange(lo as int, hi as int)[i - lo]));
            return false;
        }
        i = i + 1;
    }
    true
}

fn mantissa_upto(v: &Vec<char>, hi: usize) -> (r: bool)
    requires
        hi <= v@.len(),
    ensures
        r == is_mantissa(v@.take(hi as int)),
{
    let ghost m = v@.take(hi as int);
    let mut p: usize = 0;
    while p < hi && v[p] != '.'
        invariant
            p <= hi <= v@.len(),
            forall|k: int| 0 <= k < p ==> v@[k] != '.',
        decreases hi - p,
    {
        p = p + 1;
    }
    proof {
        lemma_cut_is(m, '.', p as int);
        assert(m == v@.subrange(0, hi as int));
        assert(m.take(p as int) == v@.subrange(0, p as int));
        if p < hi {
            assert(m.skip(p + 1) == v@.subrange(p + 1, hi as int));
        }
    }
    if p < hi {
        all_digits_in(v, 0, p) && all_digits_in(v, p + 1, hi) && hi > 1
    } else {
        all_digits_in(v, 0, hi) && hi > 0
    }
}

/// Whether `s` is a number without sign and exponent.
pub fn is_unsigned_number(s: &str) -> (r: bool)
    ensures
        r == is_mantissa(s@),
{
    let v = to_chars(s);
    assert(v@.take(v@.len() as int) == s@);
    mantissa_upto(&v, v.len())
}

/// Whether `s` denotes a binary64 number.
pub fn denotes_number(s: &str) -> (r: bool)
    ensures
        r == is_number(s@),
{
    let all = to_chars(s);
    let from: usize = if all.len() > 0 && (all[0] == '+' || all[0] == '-') {
        1
    } else {
        0
    };
    assert(s@.subrange(from as int, s@.len() as int) == without_sign(s@));
    let t = to_lower(string_of(&all, from, all.len()).as_str());
    if same(t.as_str(), "inf") || same(t.as_str(), "infinity") || same(t.as_str(), "nan") {
        return true;
    }
    let v = to_chars(t.as_str());
    let e = cut_at(&v, 0, 'e');
    assert(v@.skip(0) == v@);
    if e == v.len() {
        assert(v@.take(e as int) == v@);
        return mantissa_upto(&v, e);
    }
    let x: usize = if e + 1 < v.len() && (v[e + 1] == '+' || v[e + 1] == '-') {
        e + 2
    } else {
        e + 1
    };
    assert(without_sign(v@.skip(e + 1)) == v@.subrange(x as int, v@.len() as int));
    mantissa_upto(&v, e) && x < v.len() && all_digits_in(&v, x, v.len())
}

/// `s` without its last character.
pub open spec fn shortened(s: Seq<char>) -> Seq<char> {
    if s.len() == 0 {
        s
    } else {
        s.drop_last()
    }
}

/// `s` without its last character.
pub fn without_last(s: &str) -> (r: String)
    ensures
        r@ == shortened(s@),
{
    let v = to_chars(s);
    if v.len() == 0 {
        return String::new();
    }
    string_of(&v, 0, v.len() - 1)
}

/// `n` times the character `c`.
pub open spec fn repeat(c: char, n: nat) -> Seq<char> {
    Seq::new(n, |i: int| c)
}

/// `n` times the character `c`.
pub fn repeated(c: char, n: usize) -> (r: String)
    ensures
        r@ == repeat(c, n as nat),
{
    let mut v: Vec<char> = Vec::new();
    let mut i: usize = 0;
    while i < n
        invariant
            i <= n,
            v@ == repeat(c, i as nat),
        decreases n - i,
    {
        v.push(c);
        i = i + 1;
        assert(v@ == repeat(c, i as nat));
    }
    assert(v@.subrange(0, v@.len() as int) == v@);
    string_of(&v, 0, v.len())
}

/// `s` with spaces before it, at least `width` characters long.
pub open spec fn right_aligned(s: Seq<char>, width: nat) -> Seq<char> {
    if s.len() < width {
        repeat(' ', (width - s.len()) as nat) + s
    } else {
        s
    }
}

/// `s` with spaces behind it, at least `width` characters long.
pub open spec fn left_aligned(s: Seq<char>, width: nat) -> Seq<char> {
    if s.len() < width {
        s + repeat(' ', (width - s.len()) as nat)
    } else {
        s
    }
}

/// `s` with spaces before it, at least `width` characters long.
pub fn align_right(s: &str, width: usize) -> (r: String)
    ensures
        r@ == right_aligned(s@, width as nat),
{
    let n = to_chars(s).len();
    if n < width {
        joined(repeated(' ', width - n).as_str(), s)
    } else {
        s.to_owned()
    }
}

/// `s` with spaces behind it, at least `width` characters long.
pub fn align_left(s: &str, width: usize) -> (r: String)
    ensures
        r@ == left_aligned(s@, width as nat),
{
    let n = to_chars(s).len();
    if n < width {
        joined(s, repeated(' ', width - n).as_str())
    } else {
        s.to_owned()
    }
}

/// The first `n` characters of `s`.
pub open spec fn start_of(s: Seq<char>, n: nat) -> Seq<char> {
    if s.len() <= n {
        s
    } else {
        s.take(n as int)
    }
}

/// The first `n` characters of `s`.
pub fn truncated(s: &str, n: usize) -> (r: String)
    ensures
        r@ == start_of(s@, n as nat),
{
    let v = to_chars(s);
    if v.len() <= n {
        return s.to_owned();
    }
    assert(v@.subrange(0, n as int) == s@.take(n as int));
    string_of(&v, 0, n)
}

/// `s` without white space in front.
pub fn trimmed_start(s: &str) -> (r: String)
    ensures
        r@ == trim_start(s@),
{
    let v = to_chars(s);
    let mut i: usize = 0;
    assert(v@.skip(0) == s@);
    while i < v.len() && space(v[i])
        invariant
            v@ == s@,
            i <= v@.len(),
            trim_start(v@.skip(i as int)) == trim_start(s@),
        decreases v@.len() - i,
    {
        assert(v@.skip(i as int).skip(1) == v@.skip(i + 1));
        i = i + 1;
    }
    assert(v@.skip(i as int) == v@.subrange(i as int, v@.len() as int));
    string_of(&v, i, v.len())
}

// ── Laws ──────────────────────────────────────────────────────────────────────

/// Only the letters A to Z have a small letter, which stands 32 places behind,
/// and only a to z a capital; folding twice changes nothing more.
pub proof fn only_letters_are_folded(c: char)
    ensures
        65 <= c as u32 <= 90 ==> lower_char(c) as u32 == c as u32 + 32,
        !(65 <= c as u32 <= 90) ==> lower_char(c) == c,
        97 <= c as u32 <= 122 ==> upper_char(c) as u32 == c as u32 - 32,
        !(97 <= c as u32 <= 122) ==> upper_char(c) == c,
        lower_char(lower_char(c)) == lower_char(c),
        upper_char(lower_char(c)) == upper_char(c),
{
}

/// Folding a text folds each of its characters in place.
pub proof fn texts_are_folded_in_place(s: Seq<char>, i: int)
    requires
        0 <= i < s.len(),
    ensures
        lower(s).len() == s.len() && lower(s)[i] == lower_char(s[i]),
        upper(s).len() == s.len() && upper(s)[i] == upper_char(s[i]),
{
}

/// Space, tab and the line ends are white space, and no visible ASCII character is.
pub proof fn white_space_is_invisible(c: char)
    ensures
        is_space(' ') && is_space('\t') && is_space('\n') && is_space('\r'),
        33 <= c as u32 <= 126 ==> !is_space(c),
        c as u32 == 0xa0 || c as u32 == 0x2003 || c as u32 == 0x3000 ==> is_space(c),
        is_digit(c) <==> 48 <= c as u32 <= 57,
{
}

/// A trimmed text is what is left of the text once only white space is taken from
/// its ends, and begins and ends with something else.
pub proof fn only_the_ends_are_trimmed(s: Seq<char>)
    ensures
        exists|i: int, j: int|
            0 <= i <= j <= s.len() && trimmed(s) == #[trigger] s.subrange(i, j) && (forall|k: int|
                0 <= k < i || j <= k < s.len() ==> is_space(#[trigger] s[k])),
        trimmed(s).len() > 0 ==> !is_space(trimmed(s)[0]) && !is_space(trimmed(s).last()),
{
    lemma_trim_start(s);
    let i = s.len() - trim_start(s).len();
    lemma_trim_end(trim_start(s));
    let j = i + trimmed(s).len();
    assert(trimmed(s) =~= s.subrange(i, j));
    assert forall|k: int| 0 <= k < i || j <= k < s.len() implies is_space(#[trigger] s[k]) by {
        if k >= i {
            assert(trim_start(s)[k - i] == s[k]);
        }
    }
}

proof fn lemma_trim_start(s: Seq<char>)
    ensures
        trim_start(s).len() <= s.len(),
        trim_start(s) == s.skip(s.len() - trim_start(s).len()),
        forall|k: int| 0 <= k < s.len() - trim_start(s).len() ==> is_space(#[trigger] s[k]),
        trim_start(s).len() > 0 ==> !is_space(trim_start(s)[0]),
    decreases s.len(),
{
    if s.len() > 0 && is_space(s[0]) {
        let t = s.skip(1);
        lemma_trim_start(t);
        let n = t.len() - trim_start(t).len();
        assert(t.skip(n) =~= s.skip(n + 1));
        assert forall|k: int| 0 <= k < n + 1 implies is_space(#[trigger] s[k]) by {
            if k > 0 {
                assert(t[k - 1] == s[k]);
            }
        }
    } else {
        assert(s.skip(0) =~= s);
    }
}

proof fn lemma_trim_end(s: Seq<char>)
    ensures
        trim_end(s).len() <= s.len(),
        trim_end(s) == s.take(trim_end(s).len() as int),
        forall|k: int| trim_end(s).len() <= k < s.len() ==> is_space(#[trigger] s[k]),
        trim_end(s).len() > 0 ==> !is_space(trim_end(s).last()),
        trim_end(s).len() > 0 ==> trim_end(s)[0] == s[0],
    decreases s.len(),
{
    if s.len() > 0 && is_space(s.last()) {
        let t = s.drop_last();
        lemma_trim_end(t);
        let n = trim_end(t).len() as int;
        assert(t.take(n) =~= s.take(n));
        assert forall|k: int| n <= k < s.len() implies is_space(#[trigger] s[k]) by {
            if k < t.len() {
                assert(t[k] == s[k]);
            }
        }
    } else {
        assert(s.take(s.len() as int) =~= s);
    }
}

/// A line without its end is the text up to where only carriage returns and line
/// feeds follow.
pub proof fn only_the_line_end_is_cut(s: Seq<char>)
    ensures
        without_line_end(s).is_prefix_of(s),
        forall|k: int|
            without_line_end(s).len() <= k < s.len() ==> ((#[trigger] s[k]) == '\r' || s[k] == '\n'),
        without_line_end(s).len() > 0 ==> without_line_end(s).last() != '\r'
            && without_line_end(s).last() != '\n',
    decreases s.len(),
{
    if s.len() > 0 && is_line_end(s.last()) {
        let t = s.drop_last();
        only_the_line_end_is_cut(t);
        let n = without_line_end(t).len() as int;
        assert(t.subrange(0, n) =~= s.subrange(0, n));
        assert forall|k: int| n <= k < s.len() implies ((#[trigger] s[k]) == '\r'
            || s[k] == '\n') by {
            if k < t.len() {
                assert(t[k] == s[k]);
            }
        }
    } else {
        assert(s.subrange(0, s.len() as int) =~= s);
    }
}

/// The pieces of a split, joined again, are the text; none holds the separator.
pub proof fn a_split_is_undone_by_joining(s: Seq<char>, c: char)
    ensures
        join(split(s, c), seq![c]) == s,
        forall|i: int| 0 <= i < split(s, c).len() ==> !(#[trigger] split(s, c)[i]).contains(c),
    decreases s.len(),
{
    lemma_cut(s, c);
    let i = cut(s, c);
    if i < s.len() {
        let rest = s.skip(i + 1);
        a_split_is_undone_by_joining(rest, c);
        lemma_split_nonempty(rest, c);
        lemma_join_first(s.take(i), split(rest, c), seq![c]);
        assert(s.take(i) + seq![c] + rest =~= s);
        assert forall|k: int| 0 <= k < split(s, c).len() implies !(#[trigger] split(
            s,
            c,
        )[k]).contains(c) by {
            if k == 0 {
                assert(split(s, c)[0] == s.take(i));
            } else {
                assert(split(s, c)[k] == split(rest, c)[k - 1]);
            }
        }
    } else {
        assert(split(s, c) =~= seq![s]);
    }
}

proof fn lemma_join_first(a: Seq<char>, v: Seq<Seq<char>>, sep: Seq<char>)
    requires
        v.len() > 0,
    ensures
        join(seq![a] + v, sep) == a + sep + join(v, sep),
    decreases v.len(),
{
    let w = seq![a] + v;
    assert(w.last() == v.last());
    if v.len() == 1 {
        assert(w.drop_last() =~= seq![a]);
        reveal_with_fuel(join, 2);
    } else {
        assert(w.drop_last() =~= seq![a] + v.drop_last());
        lemma_join_first(a, v.drop_last(), sep);
        assert(a + sep + join(v.drop_last(), sep) + sep + v.last() =~= a + sep + (join(
            v.drop_last(),
            sep,
        ) + sep + v.last()));
    }
}

/// A text is cut at the first separator, or at the last, into what stands before
/// and behind it.
pub proof fn a_text_is_cut_at_its_separator(s: Seq<char>, c: char)
    ensures
        split_first(s, c) matches Some((a, b)) ==> s == a + seq![c] + b && !a.contains(c),
        split_last(s, c) matches Some((a, b)) ==> s == a + seq![c] + b && !b.contains(c),
        split_first(s, c) is Some <==> s.contains(c),
        split_last(s, c) is Some <==> s.contains(c),
{
    lemma_cut(s, c);
    lemma_last_cut(s, c);
    if let Some((a, b)) = split_first(s, c) {
        assert(s =~= a + seq![c] + b);
    }
    if let Some((a, b)) = split_last(s, c) {
        assert(s =~= a + seq![c] + b);
    }
}

proof fn lemma_last_cut(s: Seq<char>, c: char)
    ensures
        -1 <= last_cut(s, c) < s.len(),
        last_cut(s, c) >= 0 ==> s[last_cut(s, c)] == c,
        forall|k: int| last_cut(s, c) < k < s.len() ==> #[trigger] s[k] != c,
        s.contains(c) <==> last_cut(s, c) >= 0,
    decreases s.len(),
{
    if s.len() > 0 && s.last() != c {
        let t = s.drop_last();
        lemma_last_cut(t, c);
        assert forall|k: int| last_cut(s, c) < k < s.len() implies #[trigger] s[k] != c by {
            if k < t.len() {
                assert(t[k] == s[k]);
            }
        }
        if s.contains(c) {
            let k = choose|k: int| 0 <= k < s.len() && s[k] == c;
            assert(t[k] == c);
        }
    } else if s.len() > 0 {
        assert(s[s.len() - 1] == c);
    }
}

/// A bounded split has at most so many pieces, and joined again they are the text.
pub proof fn a_bounded_split_is_undone_by_joining(s: Seq<char>, n: nat, c: char)
    requires
        n > 0,
    ensures
        1 <= splitn(s, n, c).len() <= n,
        join(splitn(s, n, c), seq![c]) == s,
        forall|i: int| 0 <= i < splitn(s, n, c).len() - 1 ==> !(#[trigger] splitn(s, n, c)[i]).contains(c),
        splitn(s, n, c).len() < n ==> !splitn(s, n, c).last().contains(c),
    decreases n,
{
    a_text_is_cut_at_its_separator(s, c);
    if n > 1 {
        if let Some((a, b)) = split_first(s, c) {
            let m = (n - 1) as nat;
            a_bounded_split_is_undone_by_joining(b, m, c);
            lemma_join_first(a, splitn(b, m, c), seq![c]);
            assert forall|i: int| 0 <= i < splitn(s, n, c).len() - 1 implies !(#[trigger] splitn(
                s,
                n,
                c,
            )[i]).contains(c) by {
                if i > 0 {
                    assert(splitn(s, n, c)[i] == splitn(b, m, c)[i - 1]);
                }
            }
        }
    }
}

/// A text is its first line, without a carriage return at its end, and the lines
/// behind the first line feed; without one it is one line, and no text has none.
pub proof fn lines_end_at_line_feeds(a: Seq<char>, b: Seq<char>)
    requires
        !a.contains('\n'),
    ensures
        lines(seq![]) == Seq::<Seq<char>>::empty(),
        a.len() > 0 ==> lines(a) == seq![a],
        lines(a + seq!['\n'] + b) == seq![
            if a.len() > 0 && a.last() == '\r' {
                a.drop_last()
            } else {
                a
            },
        ] + lines(b),
{
    lemma_cut(a, '\n');
    let s = a + seq!['\n'] + b;
    assert forall|i: int| 0 <= i < a.len() implies s[i] != '\n' by {
        if a[i] == '\n' {
            assert(a.contains('\n'));
        }
    }
    lemma_cut_is(s, '\n', a.len() as int);
    assert(s.take(a.len() as int) =~= a);
    assert(s.skip(a.len() as int + 1) =~= b);
    if a.len() > 0 {
        assert(lines(a) =~= seq![a]);
    }
}

/// The words of two texts with white space between them are the words of the one
/// and of the other; a text without white space is one word.
pub proof fn words_end_at_white_space(a: Seq<char>, c: char, b: Seq<char>)
    requires
        is_space(c),
    ensures
        words(a + seq![c] + b) == words(a) + words(b),
        words(seq![]) == Seq::<Seq<char>>::empty(),
    decreases a.len(),
{
    let s = a + seq![c] + b;
    if a.len() == 0 {
        assert(s.skip(1) =~= b);
        assert(words(a) + words(b) =~= words(b));
    } else if is_space(a[0]) {
        words_end_at_white_space(a.skip(1), c, b);
        assert(s.skip(1) =~= a.skip(1) + seq![c] + b);
    } else {
        lemma_word_len(a);
        let n = word_len(a);
        lemma_word_len_is(s, n);
        assert(s.take(n) =~= a.take(n));
        assert(s.skip(n) =~= a.skip(n) + seq![c] + b);
        words_end_at_white_space(a.skip(n), c, b);
        assert(words(s) =~= words(a) + words(b));
    }
}

proof fn lemma_word_len_is(s: Seq<char>, n: int)
    requires
        0 <= n <= s.len(),
        forall|i: int| 0 <= i < n ==> !is_space(#[trigger] s[i]),
        n < s.len() ==> is_space(s[n]),
    ensures
        word_len(s) == n,
{
    lemma_word_len(s);
    let m = word_len(s);
    if m < n {
        assert(!is_space(s[m]));
    } else if n < m {
        assert(!is_space(s[n]));
    }
}

/// A text without white space is its only word.
pub proof fn a_word_is_its_own_word(s: Seq<char>)
    requires
        s.len() > 0,
        forall|i: int| 0 <= i < s.len() ==> !is_space(#[trigger] s[i]),
    ensures
        words(s) == seq![s],
{
    lemma_word_len_is(s, s.len() as int);
    assert(s.take(s.len() as int) =~= s);
    assert(s.skip(s.len() as int) =~= seq![]);
    reveal_with_fuel(words, 2);
    assert(words(s) =~= seq![s]);
}

/// A number written in decimal is read back as itself; it has no leading zero,
/// and its last digit tells it from its neighbours.
pub proof fn written_numbers_are_read_back(n: nat)
    ensures
        natural(decimal(n)) == Some(n),
        integer(decimal(n)) == Some(n as int),
        n > 0 ==> integer(seq!['-'] + decimal(n)) == Some(-(n as int)),
        natural(seq!['+'] + decimal(n)) == Some(n),
        decimal(n).len() > 1 ==> decimal(n)[0] != '0',
        decimal(n).last() as u32 == 48 + n % 10,
        n >= 10 ==> decimal(n).drop_last() == decimal(n / 10),
        n < 10 ==> decimal(n).len() == 1,
{
    lemma_decimal(n);
    let d = decimal(n);
    assert((seq!['-'] + d).skip(1) =~= d);
    assert((seq!['+'] + d).skip(1) =~= d);
    if n >= 10 {
        assert(d.drop_last() =~= decimal(n / 10));
    }
}

proof fn lemma_decimal(n: nat)
    ensures
        decimal(n).len() > 0,
        all_digits(decimal(n)),
        digits_value(decimal(n)) == n,
        n > 0 ==> decimal(n)[0] != '0',
        is_digit(decimal(n)[0]),
    decreases n,
{
    if n < 10 {
        let d = decimal(n);
        assert(d.drop_last() =~= seq![]);
        assert(digits_value(d.drop_last()) == 0);
    } else {
        lemma_decimal(n / 10);
        let d = decimal(n);
        assert(d.drop_last() =~= decimal(n / 10));
        assert forall|i: int| 0 <= i < d.len() implies is_digit(#[trigger] d[i]) by {
            if i < d.len() - 1 {
                assert(d[i] == decimal(n / 10)[i]);
            }
        }
        assert(d[0] == decimal(n / 10)[0]);
    }
}

/// A number is read up to the limit and not above it, and nothing is read that
/// holds anything but digits behind a sign.
pub proof fn numbers_are_read_up_to_the_limit(s: Seq<char>, max: nat, i: int)
    ensures
        natural(s) matches Some(n) ==> natural_upto(s, max) == (if n <= max {
            Some(n)
        } else {
            None
        }),
        natural(s) is None ==> natural_upto(s, max) is None,
        natural(seq![]) is None && integer(seq![]) is None,
        1 <= i < s.len() && !(48 <= s[i] as u32 <= 57) ==> natural(s) is None && integer(s) is None,
        s.len() > 0 && s[0] == '-' ==> natural(s) is None,
        integer(s) matches Some(v) ==> (integer_i64(s) is Some <==> -0x8000_0000_0000_0000 <= v
            <= 0x7fff_ffff_ffff_ffff),
        integer_i64(s) is Some ==> integer_i64(s) == integer(s),
{
    if 1 <= i < s.len() && !is_digit(s[i]) {
        assert(s.skip(1)[i - 1] == s[i]);
    }
    if s.len() > 0 && s[0] == '-' {
        assert(!is_digit(s[0]));
    }
}

/// One more digit makes a number ten times as large, and adds its value.
pub proof fn digits_count_by_their_place(s: Seq<char>, d: nat)
    requires
        d < 10,
    ensures
        digits_value(s.push(digit_char(d))) == 10 * digits_value(s) + d,
        digit_char(d) as u32 == 48 + d,
        digits_value(seq![]) == 0,
{
    assert(s.push(digit_char(d)).drop_last() =~= s);
}

/// Digits are a number, with a point before, between or behind them and a sign in
/// front as well; nothing at all is none, and neither is a text without a digit
/// that is not one of the three words.
pub proof fn digits_are_a_number(a: Seq<char>, b: Seq<char>)
    requires
        all_digits(a),
        all_digits(b),
        a.len() + b.len() > 0,
    ensures
        is_mantissa(a + b),
        is_mantissa(a + seq!['.'] + b),
        is_number(a + seq!['.'] + b),
        is_number(seq!['-'] + (a + seq!['.'] + b)),
        is_number(seq!['+'] + (a + seq!['.'] + b)),
        !is_mantissa(seq![]),
        !is_mantissa(seq!['.']),
{
    let s = a + b;
    assert forall|i: int| 0 <= i < s.len() implies is_digit(#[trigger] s[i]) by {
        if i < a.len() {
            assert(s[i] == a[i]);
        } else {
            assert(s[i] == b[i - a.len()]);
        }
    }
    lemma_cut_is(s, '.', s.len() as int);
    let t = a + seq!['.'] + b;
    lemma_cut_is(t, '.', a.len() as int);
    assert(t.take(a.len() as int) =~= a);
    assert(t.skip(a.len() as int + 1) =~= b);
    assert forall|i: int| 0 <= i < t.len() implies is_digit(#[trigger] t[i]) || t[i] == '.' by {
        if i < a.len() {
            assert(t[i] == a[i]);
        } else if i > a.len() {
            assert(t[i] == b[i - a.len() - 1]);
        }
    }
    assert(lower(t) =~= t);
    lemma_cut_is(t, 'e', t.len() as int);
    assert(without_sign(t) == t) by {
        assert(is_digit(t[0]) || t[0] == '.');
    }
    assert((seq!['-'] + t).skip(1) =~= t);
    assert((seq!['+'] + t).skip(1) =~= t);
    let none: Seq<char> = seq![];
    lemma_cut_is(none, '.', 0);
    lemma_cut_is(seq!['.'], '.', 0);
}

/// What is aligned has its width, or more if the text is longer, and the text at
/// the side it is aligned to; the rest is spaces.
pub proof fn aligned_texts_have_their_width(s: Seq<char>, width: nat)
    ensures
        right_aligned(s, width).len() == (if s.len() < width {
            width
        } else {
            s.len()
        }),
        left_aligned(s, width).len() == right_aligned(s, width).len(),
        left_aligned(s, width).take(s.len() as int) == s,
        right_aligned(s, width).skip(right_aligned(s, width).len() - s.len()) == s,
        forall|i: int|
            s.len() <= i < left_aligned(s, width).len() ==> #[trigger] left_aligned(s, width)[i]
                == ' ',
        forall|i: int|
            0 <= i < right_aligned(s, width).len() - s.len() ==> #[trigger] right_aligned(
                s,
                width,
            )[i] == ' ',
{
    assert(left_aligned(s, width).take(s.len() as int) =~= s);
    assert(right_aligned(s, width).skip(right_aligned(s, width).len() - s.len()) =~= s);
}

/// The start of a text is its first characters, as many as there are up to the
/// number, and a shortened text lacks just the last one.
pub proof fn starts_are_prefixes(s: Seq<char>, n: nat, c: char)
    ensures
        start_of(s, n).is_prefix_of(s),
        start_of(s, n).len() == (if s.len() < n {
            s.len()
        } else {
            n
        }),
        shortened(s.push(c)) == s,
        shortened(seq![]) == Seq::<char>::empty(),
        repeat(c, n).len() == n,
        forall|i: int| 0 <= i < n ==> #[trigger] repeat(c, n)[i] == c,
{
    assert(s.subrange(0, start_of(s, n).len() as int) =~= start_of(s, n));
    assert(s.push(c).drop_last() =~= s);
}

/// A text starts with a prefix if it is the prefix and something behind it.
pub proof fn a_prefix_is_what_comes_first(p: Seq<char>, rest: Seq<char>, s: Seq<char>)
    ensures
        starts(p + rest, p),
        after(p + rest, p) == Some(rest),
        starts(s, p) <==> exists|r: Seq<char>| s == p + r,
        after(s, p) is Some <==> starts(s, p),
{
    assert((p + rest).take(p.len() as int) =~= p);
    assert((p + rest).skip(p.len() as int) =~= rest);
    if starts(s, p) {
        assert(s =~= p + s.skip(p.len() as int));
    }
    if exists|r: Seq<char>| s == p + r {
        let r = choose|r: Seq<char>| s == p + r;
        assert((p + r).take(p.len() as int) =~= p);
    }
}

/// A text that begins and ends with something visible is trimmed already, and
/// trimming twice is trimming once.
pub proof fn trimmed_texts_stay(s: Seq<char>)
    ensures
        s.len() > 0 && !is_space(s[0]) && !is_space(s.last()) ==> trimmed(s) == s,
        trimmed(trimmed(s)) == trimmed(s),
{
    only_the_ends_are_trimmed(s);
}

/// A number in decimal has no white space, so it is trimmed already, and the
/// limit alone decides whether it is read.
pub proof fn written_numbers_are_read_up_to_the_limit(n: nat, max: nat)
    ensures
        trimmed(decimal(n)) == decimal(n),
        natural_upto(decimal(n), max) == (if n <= max {
            Some(n)
        } else {
            None
        }),
        !decimal(n).contains(',') && !decimal(n).contains(':') && !decimal(n).contains('='),
        forall|i: int| 0 <= i < decimal(n).len() ==> is_digit(#[trigger] decimal(n)[i]),
{
    lemma_decimal(n);
    written_numbers_are_read_back(n);
    let d = decimal(n);
    assert(is_digit(d[0]) && is_digit(d[d.len() - 1]));
    trimmed_texts_stay(d);
}

/// A text with one separator is cut there if none stands before it.
pub proof fn a_separator_is_found(a: Seq<char>, c: char, b: Seq<char>)
    requires
        !a.contains(c),
    ensures
        split_first(a + seq![c] + b, c) == Some((a, b)),
        split_first(a, c) is None,
        split(a + seq![c] + b, c) == seq![a] + split(b, c),
        split(a, c) == seq![a],
{
    let s = a + seq![c] + b;
    assert forall|i: int| 0 <= i < a.len() implies s[i] != c by {
        if a[i] == c {
            assert(a.contains(c));
        }
    }
    lemma_cut_is(s, c, a.len() as int);
    lemma_cut(a, c);
    assert(s.take(a.len() as int) =~= a);
    assert(s.skip(a.len() as int + 1) =~= b);
    assert(split(a, c) =~= seq![a]);
}

/// Two texts that differ within a prefix do not start with it.
pub proof fn what_differs_is_no_prefix(s: Seq<char>, p: Seq<char>, i: int)
    requires
        0 <= i < p.len(),
        i >= s.len() || s[i] != p[i],
    ensures
        !starts(s, p),
        after(s, p) is None,
{
    if starts(s, p) {
        assert(s.take(p.len() as int)[i] == p[i]);
    }
}

/// An exponent is an `e` and digits, with a sign before them or none; without a
/// digit it is none.
pub proof fn an_exponent_is_a_whole_number(m: Seq<char>, d: Seq<char>)
    requires
        is_mantissa(m),
        !m.contains('e'),
        all_digits(d),
    ensures
        is_fraction(m),
        is_fraction(m + seq!['e'] + d) <==> d.len() > 0,
        is_fraction(m + seq!['e', '-'] + d) <==> d.len() > 0,
        is_fraction(m + seq!['e', '+'] + d) <==> d.len() > 0,
{
    assert forall|i: int| 0 <= i < m.len() implies m[i] != 'e' by {
        assert(m.contains(m[i]));
    }
    let n = m.len() as int;
    lemma_cut_is(m, 'e', n);
    let (a, b, c) = (m + seq!['e'] + d, m + seq!['e', '-'] + d, m + seq!['e', '+'] + d);
    lemma_cut_is(a, 'e', n);
    lemma_cut_is(b, 'e', n);
    lemma_cut_is(c, 'e', n);
    assert(a.take(n) =~= m && b.take(n) =~= m && c.take(n) =~= m);
    assert(a.skip(n + 1) =~= d);
    assert(b.skip(n + 1) =~= seq!['-'] + d);
    assert(c.skip(n + 1) =~= seq!['+'] + d);
    assert(without_sign(seq!['-'] + d) =~= d);
    assert(without_sign(seq!['+'] + d) =~= d);
    if d.len() > 0 {
        assert(is_digit(d[0]));
    }
    assert(without_sign(d) == d);
}

/// The three words denote numbers, in any case and behind either sign.
pub proof fn three_words_are_numbers(s: Seq<char>)
    requires
        lower(s) == "inf"@ || lower(s) == "infinity"@ || lower(s) == "nan"@,
    ensures
        is_number(s),
        is_number(seq!['-'] + s),
        is_number(seq!['+'] + s),
{
    reveal_strlit("inf");
    reveal_strlit("infinity");
    reveal_strlit("nan");
    assert(lower(s).len() == s.len());
    assert(lower(s)[0] == lower_char(s[0]));
    assert(without_sign(s) == s);
    assert((seq!['-'] + s).skip(1) =~= s);
    assert((seq!['+'] + s).skip(1) =~= s);
}

/// An optional text is seen as it is.
pub proof fn optional_texts_are_seen_as_they_are(s: String, t: String)
    ensures
        opt(Some(s)) == Some(s@),
        opt(None) is None,
        opt2(Some((s, t))) == Some((s@, t@)),
        opt2(None) is None,
{
}

} // verus!
