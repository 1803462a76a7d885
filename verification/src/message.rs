//! Text in which some places are numbers still to be written out.
//!
//! A message is a run of characters and number slots.  Each slot says which
//! number belongs there and how many decimals and columns it takes; writing the
//! digits is left to whoever shows or sends the message.
use vstd::prelude::*;

use crate::binary64::Real;
use crate::text;

verus! {

/// A number that a message shows.
#[derive(Debug, PartialEq)]
pub enum Quantity {
    /// A number at hand.
    Exact(Real),
    /// The number that a text denotes.
    Written(String),
    /// The first number minus the second.
    Minus(Box<Quantity>, Box<Quantity>),
}

/// A piece of a message.
#[derive(Debug, PartialEq)]
pub enum Piece {
    /// Characters as they stand.
    Plain(String),
    /// A number with `places` decimals, right-aligned in `width` columns.
    Number { quantity: Quantity, places: u8, width: u8 },
}

/// What a number slot shows, with texts by their characters.
pub enum Amount {
    Exact(Real),
    Written(Seq<char>),
    Minus(Box<Amount>, Box<Amount>),
}

/// One place of a message.
pub enum Glyph {
    /// A character, by its code point.
    Code(int),
    Number { amount: Amount, places: u8, width: u8 },
}

/// A message.
#[derive(Debug, PartialEq)]
pub struct Message {
    pub pieces: Vec<Piece>,
}

/// The first amount minus the second.
pub open spec fn minus(a: Amount, b: Amount) -> Amount {
    Amount::Minus(Box::new(a), Box::new(b))
}

impl Quantity {
    pub open spec fn amount(self) -> Amount
        decreases self,
    {
        match self {
            Quantity::Exact(r) => Amount::Exact(r),
            Quantity::Written(s) => Amount::Written(s@),
            Quantity::Minus(a, b) => minus(a.amount(), b.amount()),
        }
    }
}

impl Clone for Quantity {
    fn clone(&self) -> (r: Quantity)
        ensures
            r.amount() == self.amount(),
        decreases self,
    {
        match self {
            Quantity::Exact(r) => Quantity::Exact(*r),
            Quantity::Written(s) => Quantity::Written(s.clone()),
            Quantity::Minus(a, b) => Quantity::Minus(
                Box::new((&**a).clone()),
                Box::new((&**b).clone()),
            ),
        }
    }
}

/// Characters as glyphs.
pub open spec fn plain(s: Seq<char>) -> Seq<Glyph> {
    Seq::new(s.len(), |i: int| Glyph::Code(s[i] as int))
}

/// A number slot without alignment.
pub open spec fn number(amount: Amount, places: u8) -> Seq<Glyph> {
    seq![Glyph::Number { amount, places, width: 0 }]
}

/// A number slot aligned in `width` columns.
pub open spec fn padded(amount: Amount, places: u8, width: u8) -> Seq<Glyph> {
    seq![Glyph::Number { amount, places, width }]
}

/// A slot for the number `r`.
pub open spec fn exact(r: Real, places: u8) -> Seq<Glyph> {
    number(Amount::Exact(r), places)
}

/// The decimal digits of `n` as glyphs.
pub open spec fn count(n: nat) -> Seq<Glyph> {
    plain(text::decimal(n))
}

impl Piece {
    pub open spec fn glyphs(self) -> Seq<Glyph> {
        match self {
            Piece::Plain(s) => plain(s@),
            Piece::Number { quantity, places, width } => padded(quantity.amount(), places, width),
        }
    }
}

/// The glyphs of all pieces in order.
pub open spec fn glyphs(v: Seq<Piece>) -> Seq<Glyph>
    decreases v.len(),
{
    if v.len() == 0 {
        seq![]
    } else {
        glyphs(v.drop_last()) + v.last().glyphs()
    }
}

proof fn lemma_glyphs_concat(a: Seq<Piece>, b: Seq<Piece>)
    ensures
        glyphs(a + b) == glyphs(a) + glyphs(b),
    decreases b.len(),
{
    if b.len() == 0 {
        assert(a + b == a);
        assert(glyphs(a) + glyphs(b) == glyphs(a));
    } else {
        assert((a + b).drop_last() == a + b.drop_last());
        lemma_glyphs_concat(a, b.drop_last());
        assert(glyphs(a) + glyphs(b.drop_last()) + b.last().glyphs() == glyphs(a) + (glyphs(
            b.drop_last(),
        ) + b.last().glyphs()));
    }
}

/// Characters are told apart by how they are shown.
pub proof fn lemma_plain_is_injective(a: Seq<char>, b: Seq<char>)
    requires
        plain(a) == plain(b),
    ensures
        a == b,
{
    assert(plain(a).len() == a.len() && plain(b).len() == b.len());
    assert forall|i: int| 0 <= i < a.len() implies a[i] == b[i] by {
        assert(plain(a)[i] == Glyph::Code(a[i] as int));
        assert(plain(b)[i] == Glyph::Code(b[i] as int));
    }
    assert(a =~= b);
}

impl View for Message {
    type V = Seq<Glyph>;

    open spec fn view(&self) -> Seq<Glyph> {
        glyphs(self.pieces@)
    }
}

impl Message {
    /// The empty message.
    pub fn new() -> (r: Message)
        ensures
            r@ == Seq::<Glyph>::empty(),
    {
        Message { pieces: Vec::new() }
    }

    /// A message of the characters of `s`.
    pub fn text(s: &str) -> (r: Message)
        ensures
            r@ == plain(s@),
    {
        let r = Message::new().then_text(s);
        assert(Seq::<Glyph>::empty() + plain(s@) == plain(s@));
        r
    }

    fn with(self, piece: Piece) -> (r: Message)
        ensures
            r@ == self@ + piece.glyphs(),
    {
        let mut pieces = self.pieces;
        let ghost before = pieces@;
        pieces.push(piece);
        assert(pieces@.drop_last() == before);
        Message { pieces }
    }

    /// This message followed by the characters of `s`.
    pub fn then_text(self, s: &str) -> (r: Message)
        ensures
            r@ == self@ + plain(s@),
    {
        self.with(Piece::Plain(s.to_owned()))
    }

    /// This message followed by the decimal digits of `n`.
    pub fn then_count(self, n: u64) -> (r: Message)
        ensures
            r@ == self@ + count(n as nat),
    {
        self.with(Piece::Plain(text::decimal_of(n)))
    }

    /// This message followed by the number `r` with `places` decimals.
    pub fn then_real(self, value: Real, places: u8) -> (r: Message)
        ensures
            r@ == self@ + exact(value, places),
    {
        self.with(Piece::Number { quantity: Quantity::Exact(value), places, width: 0 })
    }

    /// This message followed by `a - b` with `places` decimals.
    pub fn then_difference(self, a: Real, b: Real, places: u8) -> (r: Message)
        ensures
            r@ == self@ + number(minus(Amount::Exact(a), Amount::Exact(b)), places),
    {
        let quantity = Quantity::Minus(Box::new(Quantity::Exact(a)), Box::new(Quantity::Exact(b)));
        assert(quantity.amount() == minus(Amount::Exact(a), Amount::Exact(b))) by {
            reveal_with_fuel(Quantity::amount, 2);
        }
        self.with(Piece::Number { quantity, places, width: 0 })
    }

    /// This message followed by a quantity, aligned in `width` columns.
    pub fn then_padded(self, quantity: &Quantity, places: u8, width: u8) -> (r: Message)
        ensures
            r@ == self@ + padded(quantity.amount(), places, width),
    {
        self.with(Piece::Number { quantity: quantity.clone(), places, width })
    }

    /// This message followed by another.
    pub fn followed_by(self, other: Message) -> (r: Message)
        ensures
            r@ == self@ + other@,
    {
        let mut pieces = self.pieces;
        let mut rest = other.pieces;
        proof {
            lemma_glyphs_concat(pieces@, rest@);
        }
        pieces.append(&mut rest);
        Message { pieces }
    }
}

impl Clone for Piece {
    fn clone(&self) -> (r: Piece)
        ensures
            r.glyphs() == self.glyphs(),
    {
        match self {
            Piece::Plain(s) => Piece::Plain(s.clone()),
            Piece::Number { quantity, places, width } => Piece::Number {
                quantity: quantity.clone(),
                places: *places,
                width: *width,
            },
        }
    }
}

impl Clone for Message {
    fn clone(&self) -> (r: Message)
        ensures
            r@ == self@,
    {
        let mut out = Message::new();
        let mut i: usize = 0;
        assert(self.pieces@.take(0) == Seq::<Piece>::empty());
        while i < self.pieces.len()
            invariant
                i <= self.pieces@.len(),
                out@ == glyphs(self.pieces@.take(i as int)),
            decreases self.pieces@.len() - i,
        {
            assert(self.pieces@.take(i + 1).drop_last() == self.pieces@.take(i as int));
            out = out.with(self.pieces[i].clone());
            i = i + 1;
        }
        assert(self.pieces@.take(i as int) == self.pieces@);
        out
    }
}

/// The characters of two texts one behind the other are shown one behind the
/// other, each as itself.
pub proof fn texts_are_shown_in_order(a: Seq<char>, b: Seq<char>, i: int)
    ensures
        plain(a + b) == plain(a) + plain(b),
        plain(a).len() == a.len(),
        0 <= i < a.len() ==> plain(a)[i] == Glyph::Code(a[i] as int),
{
    assert(plain(a + b) =~= plain(a) + plain(b));
}

/// A number takes one slot, which holds it with its decimals and its width.
pub proof fn a_number_takes_one_slot(r: Real, amount: Amount, places: u8, width: u8, n: nat)
    ensures
        exact(r, places).len() == 1,
        exact(r, places)[0] == (Glyph::Number { amount: Amount::Exact(r), places, width: 0 }),
        number(amount, places).len() == 1,
        number(amount, places)[0] == (Glyph::Number { amount, places, width: 0 }),
        padded(amount, places, width).len() == 1,
        padded(amount, places, width)[0] == (Glyph::Number { amount, places, width }),
        count(n).len() == text::decimal(n).len(),
        minus(amount, Amount::Exact(r)) == Amount::Minus(
            Box::new(amount),
            Box::new(Amount::Exact(r)),
        ),
{
}

} // verus!
