//! The wire format: whitespace-separated tokens, decimal numerals and the
//! commands they spell.

use vstd::prelude::*;
use vstd::slice::slice_subrange;
use crate::x11::key::{mousecode_of, special_of_bytes, MouseCode, SpecialCode};

verus! {

/// Maximum incoming payload in bytes that can be read.
pub const MAX_INCOMING_READ: usize = 100;

/// The kind of a key press command: `t`.
pub const TEXT: u8 = 0x74;

/// The kind of a mouse button command: `c`.
pub const MOUSE: u8 = 0x63;

/// The kind of a pointer move command: `m`.
pub const POINTER: u8 = 0x6D;

/// The kind of a special key command: `s`.
pub const SPECIAL: u8 = 0x73;

/// Whether `b` is an ASCII whitespace byte: space, tab, line feed, form
/// feed or carriage return.
pub open spec fn is_whitespace(b: u8) -> bool {
    b == 0x20 || b == 0x09 || b == 0x0A || b == 0x0C || b == 0x0D
}

/// Whether `b` separates two tokens.
pub fn is_separator(b: u8) -> (r: bool)
    ensures
        r == is_whitespace(b),
{
    b == 0x20 || b == 0x09 || b == 0x0A || b == 0x0C || b == 0x0D
}

/// The index of the first whitespace byte of `s` at or after `from`, or the
/// length of `s` if there is none.
pub open spec fn token_end(s: Seq<u8>, from: int) -> int
    decreases s.len() - from,
{
    if from < 0 || from >= s.len() || is_whitespace(s[from]) {
        from
    } else {
        token_end(s, from + 1)
    }
}

/// The tokens of `s` from the index `from` on: the stretches between one
/// whitespace byte and the next. Two whitespace bytes in a row hold an empty
/// token between them, and there is always at least one token.
pub open spec fn tokens_from(s: Seq<u8>, from: int) -> Seq<Seq<u8>>
    decreases s.len() - from,
{
    let end = token_end(s, from);
    if from < 0 || from > s.len() {
        Seq::empty()
    } else if end >= s.len() {
        seq![s.subrange(from, s.len() as int)]
    } else {
        proof {
            lemma_token_end(s, from);
        }
        seq![s.subrange(from, end)] + tokens_from(s, end + 1)
    }
}

/// The tokens of a whole chunk.
pub open spec fn split_tokens(s: Seq<u8>) -> Seq<Seq<u8>> {
    tokens_from(s, 0)
}

/// The end of a token lies between its start and the end of the chunk, and
/// no byte of the token is whitespace.
pub proof fn lemma_token_end(s: Seq<u8>, from: int)
    requires
        0 <= from <= s.len(),
    ensures
        from <= token_end(s, from) <= s.len(),
        token_end(s, from) < s.len() ==> is_whitespace(s[token_end(s, from)]),
        forall|i: int| from <= i < token_end(s, from) ==> !is_whitespace(s[i]),
    decreases s.len() - from,
{
    if from < s.len() && !is_whitespace(s[from]) {
        lemma_token_end(s, from + 1);
    }
}

/// No token holds a whitespace byte, and the tokens with the whitespace
/// bytes between them are all of the chunk: one byte more than tokens are
/// whitespace.
pub proof fn lemma_tokens(s: Seq<u8>, from: int)
    requires
        0 <= from <= s.len(),
    ensures
        tokens_from(s, from).len() >= 1,
        forall|i: int, j: int|
            0 <= i < tokens_from(s, from).len() && 0 <= j < tokens_from(s, from)[i].len()
                ==> !is_whitespace(#[trigger] tokens_from(s, from)[i][j]),
        total_len(tokens_from(s, from)) + tokens_from(s, from).len() - 1 == s.len() - from,
    decreases s.len() - from,
{
    let end = token_end(s, from);
    lemma_token_end(s, from);
    let first = s.subrange(from, end);
    if end >= s.len() {
        assert(tokens_from(s, from) =~= seq![first]);
        assert(seq![first].drop_last() =~= Seq::<Seq<u8>>::empty());
        assert(total_len(Seq::<Seq<u8>>::empty()) == 0);
        assert(total_len(seq![first]) == first.len());
    } else {
        let rest = tokens_from(s, end + 1);
        lemma_tokens(s, end + 1);
        let all = seq![first] + rest;
        assert(tokens_from(s, from) =~= all);
        lemma_total_len_push_front(first, rest);
        assert forall|i: int, j: int| 0 <= i < all.len() && 0 <= j < all[i].len() implies !is_whitespace(
            #[trigger] all[i][j],
        ) by {
            if i > 0 {
                assert(all[i] == rest[i - 1]);
            }
        }
    }
}

/// The number of bytes in all of `tokens`.
pub open spec fn total_len(tokens: Seq<Seq<u8>>) -> nat
    decreases tokens.len(),
{
    if tokens.len() == 0 {
        0
    } else {
        total_len(tokens.drop_last()) + tokens.last().len()
    }
}

/// A token in front adds its length.
proof fn lemma_total_len_push_front(first: Seq<u8>, rest: Seq<Seq<u8>>)
    ensures
        total_len(seq![first] + rest) == first.len() + total_len(rest),
    decreases rest.len(),
{
    let all = seq![first] + rest;
    if rest.len() == 0 {
        assert(all.drop_last() =~= Seq::<Seq<u8>>::empty());
        assert(total_len(all.drop_last()) == 0);
    } else {
        assert(all.drop_last() =~= seq![first] + rest.drop_last());
        lemma_total_len_push_front(first, rest.drop_last());
    }
}

/// A cursor over the tokens of a chunk.
pub struct Tokens<'a> {
    buf: &'a [u8],
    pos: usize,
    done: bool,
}

impl<'a> Tokens<'a> {
    #[verifier::type_invariant]
    spec fn inv(self) -> bool {
        self.pos <= self.buf@.len()
    }

    /// The tokens that are still to come.
    pub closed spec fn view(&self) -> Seq<Seq<u8>> {
        if self.done {
            Seq::empty()
        } else {
            tokens_from(self.buf@, self.pos as int)
        }
    }

    /// A cursor in front of the first token of `buf`.
    pub fn new(buf: &'a [u8]) -> (it: Self)
        ensures
            it@ == split_tokens(buf@),
    {
        Tokens { buf, pos: 0, done: false }
    }

    /// Takes the next token, if one is left.
    pub fn next(&mut self) -> (token: Option<&'a [u8]>)
        ensures
            old(self)@.len() == 0 ==> token is None && final(self)@ == old(self)@,
            old(self)@.len() > 0 ==> token is Some && token->0@ == old(self)@[0] && final(self)@
                == old(self)@.drop_first(),
    {
        proof {
            use_type_invariant(&*self);
        }
        if self.done {
            return None;
        }
        let start = self.pos;
        let mut end = start;
        while end < self.buf.len() && !is_separator(self.buf[end])
            invariant
                start <= end <= self.buf@.len(),
                token_end(self.buf@, start as int) == token_end(self.buf@, end as int),
            decreases self.buf@.len() - end,
        {
            end += 1;
        }
        let token = slice_subrange(self.buf, start, end);
        proof {
            lemma_token_end(self.buf@, start as int);
        }
        if end >= self.buf.len() {
            self.done = true;
        } else {
            self.pos = end + 1;
            proof {
                let rest = tokens_from(self.buf@, end + 1);
                assert((seq![token@] + rest).drop_first() =~= rest);
            }
        }
        Some(token)
    }
}

/// Whether `b` is one of the digits `0` to `9`.
pub open spec fn is_digit(b: u8) -> bool {
    0x30 <= b <= 0x39
}

/// Whether `s` holds digits only.
pub open spec fn all_digits(s: Seq<u8>) -> bool {
    forall|i: int| 0 <= i < s.len() ==> is_digit(#[trigger] s[i])
}

/// The number that a run of decimal digits spells.
pub open spec fn digits_value(s: Seq<u8>) -> nat
    decreases s.len(),
{
    if s.len() == 0 {
        0
    } else {
        digits_value(s.drop_last()) * 10 + (s.last() - 0x30) as nat
    }
}

/// The integer that `s` spells as a decimal numeral: an optional sign, which
/// is `+` or, where `signed` holds, `-`, and then one digit or more. Nothing
/// else is a numeral: no spaces, no empty text, no sign alone.
pub open spec fn numeral(s: Seq<u8>, signed: bool) -> Option<int> {
    let sign = s.len() > 0 && (s[0] == 0x2B || (signed && s[0] == 0x2D));
    let digits = if sign {
        s.drop_first()
    } else {
        s
    };
    if digits.len() == 0 || !all_digits(digits) {
        None
    } else if sign && s[0] == 0x2D {
        Some(-(digits_value(digits) as int))
    } else {
        Some(digits_value(digits) as int)
    }
}

/// The signed 16-bit integer that `s` spells, if it spells one.
pub open spec fn numeral_i16(s: Seq<u8>) -> Option<i16> {
    match numeral(s, true) {
        Some(v) => if i16::MIN <= v <= i16::MAX {
            Some(v as i16)
        } else {
            None
        },
        None => None,
    }
}

/// The unsigned 8-bit integer that `s` spells, if it spells one.
pub open spec fn numeral_u8(s: Seq<u8>) -> Option<u8> {
    match numeral(s, false) {
        Some(v) => if v <= u8::MAX {
            Some(v as u8)
        } else {
            None
        },
        None => None,
    }
}

/// More digits never spell a smaller number.
pub proof fn lemma_digits_value_prefix(s: Seq<u8>, k: int)
    requires
        all_digits(s),
        0 <= k <= s.len(),
    ensures
        digits_value(s.take(k)) <= digits_value(s),
    decreases s.len() - k,
{
    if k == s.len() {
        assert(s.take(k) =~= s);
    } else {
        assert(s.drop_last().take(k) =~= s.take(k));
        lemma_digits_value_prefix(s.drop_last(), k);
    }
}

/// Reads the digits of `x` from `start` on as a number of at most `bound`.
fn digits_as_number(x: &[u8], start: usize, bound: u32) -> (r: Option<u32>)
    requires
        start <= x@.len(),
        bound <= 0x10000,
    ensures
        r == ({
            let digits = x@.subrange(start as int, x@.len() as int);
            if digits.len() > 0 && all_digits(digits) && digits_value(digits) <= bound {
                Some(digits_value(digits) as u32)
            } else {
                None
            }
        }),
{
    let ghost digits = x@.subrange(start as int, x@.len() as int);
    if start >= x.len() {
        return None;
    }
    let mut value: u32 = 0;
    let mut i: usize = start;
    while i < x.len()
        invariant
            start <= i <= x@.len(),
            digits == x@.subrange(start as int, x@.len() as int),
            all_digits(digits.take(i - start)),
            value == digits_value(digits.take(i - start)),
            value <= bound <= 0x10000,
        decreases x@.len() - i,
    {
        let b = x[i];
        if b < 0x30 || b > 0x39 {
            assert(!is_digit(digits[i - start]));
            return None;
        }
        let ghost next = digits.take(i - start + 1);
        assert(next.drop_last() =~= digits.take(i - start));
        assert(all_digits(next)) by {
            assert forall|j: int| 0 <= j < next.len() implies is_digit(#[trigger] next[j]) by {
                if j < i - start {
                    assert(digits.take(i - start)[j] == next[j]);
                }
            }
        }
        value = value * 10 + (b - 0x30) as u32;
        if value > bound {
            proof {
                if all_digits(digits) {
                    lemma_digits_value_prefix(digits, i - start + 1);
                }
            }
            return None;
        }
        i += 1;
    }
    assert(digits.take(i - start) =~= digits);
    Some(value)
}

/// Parse a slice of bytes as a signed 16-bit decimal numeral.
pub fn bytes_as_numerical_i16(x: &[u8]) -> (r: Option<i16>)
    ensures
        r == numeral_i16(x@),
{
    if x.len() == 0 {
        return None;
    }
    let negative = x[0] == 0x2D;
    let start: usize = if negative || x[0] == 0x2B {
        1
    } else {
        0
    };
    assert(x@.subrange(1, x@.len() as int) =~= x@.drop_first());
    assert(x@.subrange(0, x@.len() as int) =~= x@);
    if negative {
        match digits_as_number(x, start, 0x8000) {
            Some(v) => Some((0 - v as i32) as i16),
            None => None,
        }
    } else {
        match digits_as_number(x, start, 0x7FFF) {
            Some(v) => Some(v as i16),
            None => None,
        }
    }
}

/// Parse a slice of bytes as an unsigned 8-bit decimal numeral.
pub fn bytes_as_numerical_u8(x: &[u8]) -> (r: Option<u8>)
    ensures
        r == numeral_u8(x@),
{
    if x.len() == 0 {
        return None;
    }
    let start: usize = if x[0] == 0x2B {
        1
    } else {
        0
    };
    assert(x@.subrange(1, x@.len() as int) =~= x@.drop_first());
    assert(x@.subrange(0, x@.len() as int) =~= x@);
    match digits_as_number(x, start, 0xFF) {
        Some(v) => Some(v as u8),
        None => None,
    }
}

/// One decoded request of the remote controller.
#[derive(Copy, Clone, Debug, PartialEq, Eq, Structural)]
pub enum Command {
    /// Type one character.
    KeyPress { key: char },
    /// Tap one mouse button.
    MouseButton { code: MouseCode },
    /// Move the pointer to a position given in percent of the screen.
    PointerMove { x: i16, y: i16 },
    /// Tap one special key.
    Special { name: SpecialCode },
}

/// Why a chunk gave no command. Neither kind ends the session.
#[derive(Copy, Clone, Debug, PartialEq, Eq, Structural)]
pub enum DecodeError {
    /// A token is there but cannot be read: the event is in error.
    Soft,
    /// The kind is unknown or a token is missing: the data is in error.
    Hard,
}

impl DecodeError {
    /// The error in words.
    pub fn message(&self) -> (text: &'static str)
        ensures
            text@ == match *self {
                DecodeError::Soft => "Operation did not succeed: error in event"@,
                DecodeError::Hard => "Operation did not succeed: error in data"@,
            },
    {
        match self {
            DecodeError::Soft => "Operation did not succeed: error in event",
            DecodeError::Hard => "Operation did not succeed: error in data",
        }
    }
}

/// What the tokens after a `t` spell: the first byte of the first token is
/// the character to type.
pub open spec fn kb_message(args: Seq<Seq<u8>>) -> Result<Command, DecodeError> {
    if args.len() < 1 {
        Err(DecodeError::Hard)
    } else if args[0].len() < 1 {
        Err(DecodeError::Soft)
    } else {
        Ok(Command::KeyPress { key: args[0][0] as char })
    }
}

/// What the tokens after a `c` spell: the first token is the number of a
/// mouse button.
pub open spec fn mb_message(args: Seq<Seq<u8>>) -> Result<Command, DecodeError> {
    if args.len() < 1 || args[0].len() < 1 {
        Err(DecodeError::Hard)
    } else {
        match numeral_u8(args[0]) {
            Some(number) => match mousecode_of(number) {
                Some(code) => Ok(Command::MouseButton { code }),
                None => Err(DecodeError::Soft),
            },
            None => Err(DecodeError::Soft),
        }
    }
}

/// What the tokens after an `m` spell: the first two tokens are the
/// coordinates, which may lie outside the screen.
pub open spec fn pointer_message(args: Seq<Seq<u8>>) -> Result<Command, DecodeError> {
    if args.len() < 2 {
        Err(DecodeError::Hard)
    } else {
        match (numeral_i16(args[0]), numeral_i16(args[1])) {
            (Some(x), Some(y)) => Ok(Command::PointerMove { x, y }),
            _ => Err(DecodeError::Soft),
        }
    }
}

/// What the tokens after an `s` spell: the first token is the name of a
/// special key.
pub open spec fn special_message(args: Seq<Seq<u8>>) -> Result<Command, DecodeError> {
    if args.len() < 1 || args[0].len() < 1 {
        Err(DecodeError::Hard)
    } else {
        match special_of_bytes(args[0]) {
            Some(name) => Ok(Command::Special { name }),
            None => Err(DecodeError::Soft),
        }
    }
}

/// What a chunk spells: its first token is the kind of the command, the
/// tokens after it are read as that kind asks.
pub open spec fn decode(chunk: Seq<u8>) -> Result<Command, DecodeError> {
    let tokens = split_tokens(chunk);
    let kind = tokens[0];
    let args = tokens.drop_first();
    if kind == seq![TEXT] {
        kb_message(args)
    } else if kind == seq![MOUSE] {
        mb_message(args)
    } else if kind == seq![POINTER] {
        pointer_message(args)
    } else if kind == seq![SPECIAL] {
        special_message(args)
    } else {
        Err(DecodeError::Hard)
    }
}

/// What is left of `tokens` once `n` of them were taken, or all of them
/// where there are fewer.
pub open spec fn rest_after(tokens: Seq<Seq<u8>>, n: int) -> Seq<Seq<u8>> {
    if tokens.len() >= n {
        tokens.skip(n)
    } else {
        Seq::empty()
    }
}

/// Every chunk, the empty one too, has a first token.
pub proof fn lemma_first_token(chunk: Seq<u8>)
    ensures
        split_tokens(chunk).len() >= 1,
        split_tokens(chunk)[0] == chunk.subrange(0, token_end(chunk, 0)),
{
    lemma_token_end(chunk, 0);
}

} // verus!
