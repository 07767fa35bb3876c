//! Splitting text into tokens: numbers, words (matched without regard to case
//! against month names, weekday names, keywords and units) and other symbols.
use vstd::prelude::*;
use crate::error::{ErrorKind, ParseError, error_at};
use vstd::string::StringSliceAdditionalSpecFns;

verus! {

/// Numbers larger than this are refused.
pub const NUMBER_LIMIT: u64 = 1_000_000_000_000;

/// A unit of a relative offset.
#[derive(Clone, Copy, Debug, PartialEq, Eq, Structural)]
pub enum Unit {
    Second,
    Minute,
    Hour,
    Day,
    Week,
    Month,
    Year,
}

/// What a word means; matched without regard to case.
#[derive(Clone, Copy, Debug, PartialEq, Eq, Structural)]
pub enum Word {
    /// A month name, 1 to 12.
    Month(u8),
    /// A weekday name, 0 (Monday) to 6 (Sunday).
    Weekday(u8),
    Today,
    Tomorrow,
    Yesterday,
    Now,
    Next,
    Last,
    This,
    Ago,
    From,
    Later,
    At,
    Am,
    Pm,
    Noon,
    Midnight,
    Unit(Unit),
    /// A word of no known meaning.
    Other,
}

/// The kind of a token, with what it carries.
#[derive(Clone, Copy, Debug, PartialEq, Eq, Structural)]
pub enum TokenKind {
    /// A run of decimal digits: its value and how many digits it has.
    Number { value: u64, digits: usize },
    /// A run of ASCII letters.
    Word(Word),
    /// Any other byte that is not white space.
    Symbol(u8),
}

/// A token and the byte span `start..end` of the text it was read from.
#[derive(Clone, Copy, Debug, PartialEq, Eq, Structural)]
pub struct Token {
    pub kind: TokenKind,
    pub start: usize,
    pub end: usize,
}

pub open spec fn is_digit(b: u8) -> bool {
    '0' as u8 <= b <= '9' as u8
}

pub open spec fn is_alpha(b: u8) -> bool {
    ('a' as u8 <= b <= 'z' as u8) || ('A' as u8 <= b <= 'Z' as u8)
}

pub open spec fn is_space(b: u8) -> bool {
    b == ' ' as u8 || (9 <= b <= 13)
}

pub open spec fn to_lower(b: u8) -> u8 {
    if 'A' as u8 <= b <= 'Z' as u8 {
        (b + 32) as u8
    } else {
        b
    }
}

pub open spec fn lower_seq(s: Seq<u8>) -> Seq<u8> {
    Seq::new(s.len(), |k: int| to_lower(s[k]))
}

/// The end of the run of digits that starts at `i`.
pub open spec fn digit_end(s: Seq<u8>, i: int) -> int
    decreases s.len() - i,
{
    if 0 <= i < s.len() && is_digit(s[i]) {
        digit_end(s, i + 1)
    } else {
        i
    }
}

/// The end of the run of letters that starts at `i`.
pub open spec fn alpha_end(s: Seq<u8>, i: int) -> int
    decreases s.len() - i,
{
    if 0 <= i < s.len() && is_alpha(s[i]) {
        alpha_end(s, i + 1)
    } else {
        i
    }
}

/// The value of a sequence of decimal digits.
pub open spec fn digits_value(s: Seq<u8>) -> int
    decreases s.len(),
{
    if s.len() == 0 {
        0
    } else {
        digits_value(s.drop_last()) * 10 + (s.last() - '0' as u8)
    }
}

/// The meaning of `w` among the full month names.
pub open spec fn month_name(w: Seq<u8>) -> Option<Word> {
    if w == seq!['j' as u8, 'a' as u8, 'n' as u8, 'u' as u8, 'a' as u8, 'r' as u8, 'y' as u8] {
        Some(Word::Month(1))
    } else if w == seq!['f' as u8, 'e' as u8, 'b' as u8, 'r' as u8, 'u' as u8, 'a' as u8, 'r' as u8, 'y' as u8] {
        Some(Word::Month(2))
    } else if w == seq!['m' as u8, 'a' as u8, 'r' as u8, 'c' as u8, 'h' as u8] {
        Some(Word::Month(3))
    } else if w == seq!['a' as u8, 'p' as u8, 'r' as u8, 'i' as u8, 'l' as u8] {
        Some(Word::Month(4))
    } else if w == seq!['m' as u8, 'a' as u8, 'y' as u8] {
        Some(Word::Month(5))
    } else if w == seq!['j' as u8, 'u' as u8, 'n' as u8, 'e' as u8] {
        Some(Word::Month(6))
    } else if w == seq!['j' as u8, 'u' as u8, 'l' as u8, 'y' as u8] {
        Some(Word::Month(7))
    } else if w == seq!['a' as u8, 'u' as u8, 'g' as u8, 'u' as u8, 's' as u8, 't' as u8] {
        Some(Word::Month(8))
    } else if w == seq!['s' as u8, 'e' as u8, 'p' as u8, 't' as u8, 'e' as u8, 'm' as u8, 'b' as u8, 'e' as u8, 'r' as u8] {
        Some(Word::Month(9))
    } else if w == seq!['o' as u8, 'c' as u8, 't' as u8, 'o' as u8, 'b' as u8, 'e' as u8, 'r' as u8] {
        Some(Word::Month(10))
    } else if w == seq!['n' as u8, 'o' as u8, 'v' as u8, 'e' as u8, 'm' as u8, 'b' as u8, 'e' as u8, 'r' as u8] {
        Some(Word::Month(11))
    } else if w == seq!['d' as u8, 'e' as u8, 'c' as u8, 'e' as u8, 'm' as u8, 'b' as u8, 'e' as u8, 'r' as u8] {
        Some(Word::Month(12))
    } else {
        None
    }
}

/// The meaning of `w` among the abbreviated month names.
pub open spec fn month_abbreviation(w: Seq<u8>) -> Option<Word> {
    if w == seq!['j' as u8, 'a' as u8, 'n' as u8] {
        Some(Word::Month(1))
    } else if w == seq!['f' as u8, 'e' as u8, 'b' as u8] {
        Some(Word::Month(2))
    } else if w == seq!['m' as u8, 'a' as u8, 'r' as u8] {
        Some(Word::Month(3))
    } else if w == seq!['a' as u8, 'p' as u8, 'r' as u8] {
        Some(Word::Month(4))
    } else if w == seq!['j' as u8, 'u' as u8, 'n' as u8] {
        Some(Word::Month(6))
    } else if w == seq!['j' as u8, 'u' as u8, 'l' as u8] {
        Some(Word::Month(7))
    } else if w == seq!['a' as u8, 'u' as u8, 'g' as u8] {
        Some(Word::Month(8))
    } else if w == seq!['s' as u8, 'e' as u8, 'p' as u8] {
        Some(Word::Month(9))
    } else if w == seq!['s' as u8, 'e' as u8, 'p' as u8, 't' as u8] {
        Some(Word::Month(9))
    } else if w == seq!['o' as u8, 'c' as u8, 't' as u8] {
        Some(Word::Month(10))
    } else if w == seq!['n' as u8, 'o' as u8, 'v' as u8] {
        Some(Word::Month(11))
    } else if w == seq!['d' as u8, 'e' as u8, 'c' as u8] {
        Some(Word::Month(12))
    } else {
        None
    }
}

/// The meaning of `w` among the weekday names, full and abbreviated.
pub open spec fn weekday_name(w: Seq<u8>) -> Option<Word> {
    if w == seq!['m' as u8, 'o' as u8, 'n' as u8, 'd' as u8, 'a' as u8, 'y' as u8] {
        Some(Word::Weekday(0))
    } else if w == seq!['t' as u8, 'u' as u8, 'e' as u8, 's' as u8, 'd' as u8, 'a' as u8, 'y' as u8] {
        Some(Word::Weekday(1))
    } else if w == seq!['w' as u8, 'e' as u8, 'd' as u8, 'n' as u8, 'e' as u8, 's' as u8, 'd' as u8, 'a' as u8, 'y' as u8] {
        Some(Word::Weekday(2))
    } else if w == seq!['t' as u8, 'h' as u8, 'u' as u8, 'r' as u8, 's' as u8, 'd' as u8, 'a' as u8, 'y' as u8] {
        Some(Word::Weekday(3))
    } else if w == seq!['f' as u8, 'r' as u8, 'i' as u8, 'd' as u8, 'a' as u8, 'y' as u8] {
        Some(Word::Weekday(4))
    } else if w == seq!['s' as u8, 'a' as u8, 't' as u8, 'u' as u8, 'r' as u8, 'd' as u8, 'a' as u8, 'y' as u8] {
        Some(Word::Weekday(5))
    } else if w == seq!['s' as u8, 'u' as u8, 'n' as u8, 'd' as u8, 'a' as u8, 'y' as u8] {
        Some(Word::Weekday(6))
    } else if w == seq!['m' as u8, 'o' as u8, 'n' as u8] {
        Some(Word::Weekday(0))
    } else if w == seq!['t' as u8, 'u' as u8, 'e' as u8] {
        Some(Word::Weekday(1))
    } else if w == seq!['w' as u8, 'e' as u8, 'd' as u8] {
        Some(Word::Weekday(2))
    } else if w == seq!['t' as u8, 'h' as u8, 'u' as u8] {
        Some(Word::Weekday(3))
    } else if w == seq!['f' as u8, 'r' as u8, 'i' as u8] {
        Some(Word::Weekday(4))
    } else if w == seq!['s' as u8, 'a' as u8, 't' as u8] {
        Some(Word::Weekday(5))
    } else if w == seq!['s' as u8, 'u' as u8, 'n' as u8] {
        Some(Word::Weekday(6))
    } else {
        None
    }
}

/// The meaning of `w` among the keywords.
pub open spec fn keyword(w: Seq<u8>) -> Option<Word> {
    if w == seq!['t' as u8, 'o' as u8, 'd' as u8, 'a' as u8, 'y' as u8] {
        Some(Word::Today)
    } else if w == seq!['t' as u8, 'o' as u8, 'm' as u8, 'o' as u8, 'r' as u8, 'r' as u8, 'o' as u8, 'w' as u8] {
        Some(Word::Tomorrow)
    } else if w == seq!['y' as u8, 'e' as u8, 's' as u8, 't' as u8, 'e' as u8, 'r' as u8, 'd' as u8, 'a' as u8, 'y' as u8] {
        Some(Word::Yesterday)
    } else if w == seq!['n' as u8, 'o' as u8, 'w' as u8] {
        Some(Word::Now)
    } else if w == seq!['n' as u8, 'e' as u8, 'x' as u8, 't' as u8] {
        Some(Word::Next)
    } else if w == seq!['l' as u8, 'a' as u8, 's' as u8, 't' as u8] {
        Some(Word::Last)
    } else if w == seq!['t' as u8, 'h' as u8, 'i' as u8, 's' as u8] {
        Some(Word::This)
    } else if w == seq!['a' as u8, 'g' as u8, 'o' as u8] {
        Some(Word::Ago)
    } else if w == seq!['f' as u8, 'r' as u8, 'o' as u8, 'm' as u8] {
        Some(Word::From)
    } else if w == seq!['l' as u8, 'a' as u8, 't' as u8, 'e' as u8, 'r' as u8] {
        Some(Word::Later)
    } else if w == seq!['a' as u8, 't' as u8] {
        Some(Word::At)
    } else if w == seq!['a' as u8, 'm' as u8] {
        Some(Word::Am)
    } else if w == seq!['p' as u8, 'm' as u8] {
        Some(Word::Pm)
    } else if w == seq!['n' as u8, 'o' as u8, 'o' as u8, 'n' as u8] {
        Some(Word::Noon)
    } else if w == seq!['m' as u8, 'i' as u8, 'd' as u8, 'n' as u8, 'i' as u8, 'g' as u8, 'h' as u8, 't' as u8] {
        Some(Word::Midnight)
    } else {
        None
    }
}

/// The meaning of `w` among the unit words, singular, plural and abbreviated.
pub open spec fn unit_word(w: Seq<u8>) -> Option<Word> {
    if w == seq!['s' as u8, 'e' as u8, 'c' as u8, 'o' as u8, 'n' as u8, 'd' as u8] {
        Some(Word::Unit(Unit::Second))
    } else if w == seq!['s' as u8, 'e' as u8, 'c' as u8, 'o' as u8, 'n' as u8, 'd' as u8, 's' as u8] {
        Some(Word::Unit(Unit::Second))
    } else if w == seq!['s' as u8, 'e' as u8, 'c' as u8] {
        Some(Word::Unit(Unit::Second))
    } else if w == seq!['s' as u8, 'e' as u8, 'c' as u8, 's' as u8] {
        Some(Word::Unit(Unit::Second))
    } else if w == seq!['m' as u8, 'i' as u8, 'n' as u8, 'u' as u8, 't' as u8, 'e' as u8] {
        Some(Word::Unit(Unit::Minute))
    } else if w == seq!['m' as u8, 'i' as u8, 'n' as u8, 'u' as u8, 't' as u8, 'e' as u8, 's' as u8] {
        Some(Word::Unit(Unit::Minute))
    } else if w == seq!['m' as u8, 'i' as u8, 'n' as u8] {
        Some(Word::Unit(Unit::Minute))
    } else if w == seq!['m' as u8, 'i' as u8, 'n' as u8, 's' as u8] {
        Some(Word::Unit(Unit::Minute))
    } else if w == seq!['h' as u8, 'o' as u8, 'u' as u8, 'r' as u8] {
        Some(Word::Unit(Unit::Hour))
    } else if w == seq!['h' as u8, 'o' as u8, 'u' as u8, 'r' as u8, 's' as u8] {
        Some(Word::Unit(Unit::Hour))
    } else if w == seq!['d' as u8, 'a' as u8, 'y' as u8] {
        Some(Word::Unit(Unit::Day))
    } else if w == seq!['d' as u8, 'a' as u8, 'y' as u8, 's' as u8] {
        Some(Word::Unit(Unit::Day))
    } else if w == seq!['w' as u8, 'e' as u8, 'e' as u8, 'k' as u8] {
        Some(Word::Unit(Unit::Week))
    } else if w == seq!['w' as u8, 'e' as u8, 'e' as u8, 'k' as u8, 's' as u8] {
        Some(Word::Unit(Unit::Week))
    } else if w == seq!['m' as u8, 'o' as u8, 'n' as u8, 't' as u8, 'h' as u8] {
        Some(Word::Unit(Unit::Month))
    } else if w == seq!['m' as u8, 'o' as u8, 'n' as u8, 't' as u8, 'h' as u8, 's' as u8] {
        Some(Word::Unit(Unit::Month))
    } else if w == seq!['y' as u8, 'e' as u8, 'a' as u8, 'r' as u8] {
        Some(Word::Unit(Unit::Year))
    } else if w == seq!['y' as u8, 'e' as u8, 'a' as u8, 'r' as u8, 's' as u8] {
        Some(Word::Unit(Unit::Year))
    } else {
        None
    }
}

/// The meaning of the lower-case word `w`.
#[verifier::opaque]
pub open spec fn word_of(w: Seq<u8>) -> Word {
    if month_name(w) is Some {
        month_name(w).unwrap()
    } else if month_abbreviation(w) is Some {
        month_abbreviation(w).unwrap()
    } else if weekday_name(w) is Some {
        weekday_name(w).unwrap()
    } else if keyword(w) is Some {
        keyword(w).unwrap()
    } else if unit_word(w) is Some {
        unit_word(w).unwrap()
    } else {
        Word::Other
    }
}

/// The tokens of `s` from byte `i` on, or the failure of an oversized number.
pub open spec fn tokens_from(s: Seq<u8>, i: int) -> Result<Seq<Token>, ParseError>
    decreases s.len() - i,
    via tokens_from_decreases
{
    if i < 0 || i >= s.len() {
        Ok(Seq::empty())
    } else if is_space(s[i]) {
        tokens_from(s, i + 1)
    } else if is_digit(s[i]) {
        let j = digit_end(s, i + 1);
        let v = digits_value(s.subrange(i, j));
        if v > NUMBER_LIMIT {
            Err(error_at(ErrorKind::OutOfRangeField, i, j))
        } else {
            let t = Token {
                kind: TokenKind::Number { value: v as u64, digits: (j - i) as usize },
                start: i as usize,
                end: j as usize,
            };
            match tokens_from(s, j) {
                Ok(rest) => Ok(seq![t] + rest),
                Err(e) => Err(e),
            }
        }
    } else if is_alpha(s[i]) {
        let j = alpha_end(s, i + 1);
        let t = Token {
            kind: TokenKind::Word(word_of(lower_seq(s.subrange(i, j)))),
            start: i as usize,
            end: j as usize,
        };
        match tokens_from(s, j) {
            Ok(rest) => Ok(seq![t] + rest),
            Err(e) => Err(e),
        }
    } else {
        let t = Token { kind: TokenKind::Symbol(s[i]), start: i as usize, end: (i + 1) as usize };
        match tokens_from(s, i + 1) {
            Ok(rest) => Ok(seq![t] + rest),
            Err(e) => Err(e),
        }
    }
}

pub proof fn lemma_digit_end(s: Seq<u8>, i: int)
    ensures
        digit_end(s, i) >= i,
        i >= 0 ==> digit_end(s, i) <= s.len() || digit_end(s, i) == i,
        forall|k: int| i <= k < digit_end(s, i) ==> is_digit(#[trigger] s[k]),
    decreases s.len() - i,
{
    if 0 <= i < s.len() && is_digit(s[i]) {
        lemma_digit_end(s, i + 1);
    }
}

pub proof fn lemma_alpha_end(s: Seq<u8>, i: int)
    ensures
        alpha_end(s, i) >= i,
        i >= 0 ==> alpha_end(s, i) <= s.len() || alpha_end(s, i) == i,
        forall|k: int| i <= k < alpha_end(s, i) ==> is_alpha(#[trigger] s[k]),
    decreases s.len() - i,
{
    if 0 <= i < s.len() && is_alpha(s[i]) {
        lemma_alpha_end(s, i + 1);
    }
}

#[via_fn]
proof fn tokens_from_decreases(s: Seq<u8>, i: int) {
    lemma_digit_end(s, i + 1);
    lemma_alpha_end(s, i + 1);
}

/// The tokens of a whole text, read from its bytes.
pub open spec fn tokens_of(s: Seq<u8>) -> Result<Seq<Token>, ParseError> {
    tokens_from(s, 0)
}

/// A result of tokens seen as a sequence.
pub open spec fn view_tokens(r: Result<Vec<Token>, ParseError>) -> Result<Seq<Token>, ParseError> {
    match r {
        Ok(v) => Ok(v@),
        Err(e) => Err(e),
    }
}

/// `head` placed before the tokens of `r`, when `r` succeeded.
pub open spec fn prepend(head: Seq<Token>, r: Result<Seq<Token>, ParseError>) -> Result<Seq<Token>, ParseError> {
    match r {
        Ok(t) => Ok(head + t),
        Err(e) => Err(e),
    }
}

fn same_bytes<const N: usize>(w: &Vec<u8>, lit: [u8; N]) -> (r: bool)
    ensures
        r == (w@ == lit@),
{
    if w.len() != N {
        return false;
    }
    let mut k: usize = 0;
    while k < N
        invariant
            w@.len() == N,
            k <= N,
            forall|q: int| 0 <= q < k ==> w@[q] == lit@[q],
        decreases N - k,
    {
        if w[k] != lit[k] {
            return false;
        }
        k = k + 1;
    }
    assert(w@ =~= lit@);
    true
}

fn month_name_exec(w: &Vec<u8>) -> (r: Option<Word>)
    ensures
        r == month_name(w@),
{
    if same_bytes(w, ['j' as u8, 'a' as u8, 'n' as u8, 'u' as u8, 'a' as u8, 'r' as u8, 'y' as u8]) {
        Some(Word::Month(1))
    } else if same_bytes(w, ['f' as u8, 'e' as u8, 'b' as u8, 'r' as u8, 'u' as u8, 'a' as u8, 'r' as u8, 'y' as u8]) {
        Some(Word::Month(2))
    } else if same_bytes(w, ['m' as u8, 'a' as u8, 'r' as u8, 'c' as u8, 'h' as u8]) {
        Some(Word::Month(3))
    } else if same_bytes(w, ['a' as u8, 'p' as u8, 'r' as u8, 'i' as u8, 'l' as u8]) {
        Some(Word::Month(4))
    } else if same_bytes(w, ['m' as u8, 'a' as u8, 'y' as u8]) {
        Some(Word::Month(5))
    } else if same_bytes(w, ['j' as u8, 'u' as u8, 'n' as u8, 'e' as u8]) {
        Some(Word::Month(6))
    } else if same_bytes(w, ['j' as u8, 'u' as u8, 'l' as u8, 'y' as u8]) {
        Some(Word::Month(7))
    } else if same_bytes(w, ['a' as u8, 'u' as u8, 'g' as u8, 'u' as u8, 's' as u8, 't' as u8]) {
        Some(Word::Month(8))
    } else if same_bytes(w, ['s' as u8, 'e' as u8, 'p' as u8, 't' as u8, 'e' as u8, 'm' as u8, 'b' as u8, 'e' as u8, 'r' as u8]) {
        Some(Word::Month(9))
    } else if same_bytes(w, ['o' as u8, 'c' as u8, 't' as u8, 'o' as u8, 'b' as u8, 'e' as u8, 'r' as u8]) {
        Some(Word::Month(10))
    } else if same_bytes(w, ['n' as u8, 'o' as u8, 'v' as u8, 'e' as u8, 'm' as u8, 'b' as u8, 'e' as u8, 'r' as u8]) {
        Some(Word::Month(11))
    } else if same_bytes(w, ['d' as u8, 'e' as u8, 'c' as u8, 'e' as u8, 'm' as u8, 'b' as u8, 'e' as u8, 'r' as u8]) {
        Some(Word::Month(12))
    } else {
        None
    }
}

fn month_abbreviation_exec(w: &Vec<u8>) -> (r: Option<Word>)
    ensures
        r == month_abbreviation(w@),
{
    if same_bytes(w, ['j' as u8, 'a' as u8, 'n' as u8]) {
        Some(Word::Month(1))
    } else if same_bytes(w, ['f' as u8, 'e' as u8, 'b' as u8]) {
        Some(Word::Month(2))
    } else if same_bytes(w, ['m' as u8, 'a' as u8, 'r' as u8]) {
        Some(Word::Month(3))
    } else if same_bytes(w, ['a' as u8, 'p' as u8, 'r' as u8]) {
        Some(Word::Month(4))
    } else if same_bytes(w, ['j' as u8, 'u' as u8, 'n' as u8]) {
        Some(Word::Month(6))
    } else if same_bytes(w, ['j' as u8, 'u' as u8, 'l' as u8]) {
        Some(Word::Month(7))
    } else if same_bytes(w, ['a' as u8, 'u' as u8, 'g' as u8]) {
        Some(Word::Month(8))
    } else if same_bytes(w, ['s' as u8, 'e' as u8, 'p' as u8]) {
        Some(Word::Month(9))
    } else if same_bytes(w, ['s' as u8, 'e' as u8, 'p' as u8, 't' as u8]) {
        Some(Word::Month(9))
    } else if same_bytes(w, ['o' as u8, 'c' as u8, 't' as u8]) {
        Some(Word::Month(10))
    } else if same_bytes(w, ['n' as u8, 'o' as u8, 'v' as u8]) {
        Some(Word::Month(11))
    } else if same_bytes(w, ['d' as u8, 'e' as u8, 'c' as u8]) {
        Some(Word::Month(12))
    } else {
        None
    }
}

fn weekday_name_exec(w: &Vec<u8>) -> (r: Option<Word>)
    ensures
        r == weekday_name(w@),
{
    if same_bytes(w, ['m' as u8, 'o' as u8, 'n' as u8, 'd' as u8, 'a' as u8, 'y' as u8]) {
        Some(Word::Weekday(0))
    } else if same_bytes(w, ['t' as u8, 'u' as u8, 'e' as u8, 's' as u8, 'd' as u8, 'a' as u8, 'y' as u8]) {
        Some(Word::Weekday(1))
    } else if same_bytes(w, ['w' as u8, 'e' as u8, 'd' as u8, 'n' as u8, 'e' as u8, 's' as u8, 'd' as u8, 'a' as u8, 'y' as u8]) {
        Some(Word::Weekday(2))
    } else if same_bytes(w, ['t' as u8, 'h' as u8, 'u' as u8, 'r' as u8, 's' as u8, 'd' as u8, 'a' as u8, 'y' as u8]) {
        Some(Word::Weekday(3))
    } else if same_bytes(w, ['f' as u8, 'r' as u8, 'i' as u8, 'd' as u8, 'a' as u8, 'y' as u8]) {
        Some(Word::Weekday(4))
    } else if same_bytes(w, ['s' as u8, 'a' as u8, 't' as u8, 'u' as u8, 'r' as u8, 'd' as u8, 'a' as u8, 'y' as u8]) {
        Some(Word::Weekday(5))
    } else if same_bytes(w, ['s' as u8, 'u' as u8, 'n' as u8, 'd' as u8, 'a' as u8, 'y' as u8]) {
        Some(Word::Weekday(6))
    } else if same_bytes(w, ['m' as u8, 'o' as u8, 'n' as u8]) {
        Some(Word::Weekday(0))
    } else if same_bytes(w, ['t' as u8, 'u' as u8, 'e' as u8]) {
        Some(Word::Weekday(1))
    } else if same_bytes(w, ['w' as u8, 'e' as u8, 'd' as u8]) {
        Some(Word::Weekday(2))
    } else if same_bytes(w, ['t' as u8, 'h' as u8, 'u' as u8]) {
        Some(Word::Weekday(3))
    } else if same_bytes(w, ['f' as u8, 'r' as u8, 'i' as u8]) {
        Some(Word::Weekday(4))
    } else if same_bytes(w, ['s' as u8, 'a' as u8, 't' as u8]) {
        Some(Word::Weekday(5))
    } else if same_bytes(w, ['s' as u8, 'u' as u8, 'n' as u8]) {
        Some(Word::Weekday(6))
    } else {
        None
    }
}

fn keyword_exec(w: &Vec<u8>) -> (r: Option<Word>)
    ensures
        r == keyword(w@),
{
    if same_bytes(w, ['t' as u8, 'o' as u8, 'd' as u8, 'a' as u8, 'y' as u8]) {
        Some(Word::Today)
    } else if same_bytes(w, ['t' as u8, 'o' as u8, 'm' as u8, 'o' as u8, 'r' as u8, 'r' as u8, 'o' as u8, 'w' as u8]) {
        Some(Word::Tomorrow)
    } else if same_bytes(w, ['y' as u8, 'e' as u8, 's' as u8, 't' as u8, 'e' as u8, 'r' as u8, 'd' as u8, 'a' as u8, 'y' as u8]) {
        Some(Word::Yesterday)
    } else if same_bytes(w, ['n' as u8, 'o' as u8, 'w' as u8]) {
        Some(Word::Now)
    } else if same_bytes(w, ['n' as u8, 'e' as u8, 'x' as u8, 't' as u8]) {
        Some(Word::Next)
    } else if same_bytes(w, ['l' as u8, 'a' as u8, 's' as u8, 't' as u8]) {
        Some(Word::Last)
    } else if same_bytes(w, ['t' as u8, 'h' as u8, 'i' as u8, 's' as u8]) {
        Some(Word::This)
    } else if same_bytes(w, ['a' as u8, 'g' as u8, 'o' as u8]) {
        Some(Word::Ago)
    } else if same_bytes(w, ['f' as u8, 'r' as u8, 'o' as u8, 'm' as u8]) {
        Some(Word::From)
    } else if same_bytes(w, ['l' as u8, 'a' as u8, 't' as u8, 'e' as u8, 'r' as u8]) {
        Some(Word::Later)
    } else if same_bytes(w, ['a' as u8, 't' as u8]) {
        Some(Word::At)
    } else if same_bytes(w, ['a' as u8, 'm' as u8]) {
        Some(Word::Am)
    } else if same_bytes(w, ['p' as u8, 'm' as u8]) {
        Some(Word::Pm)
    } else if same_bytes(w, ['n' as u8, 'o' as u8, 'o' as u8, 'n' as u8]) {
        Some(Word::Noon)
    } else if same_bytes(w, ['m' as u8, 'i' as u8, 'd' as u8, 'n' as u8, 'i' as u8, 'g' as u8, 'h' as u8, 't' as u8]) {
        Some(Word::Midnight)
    } else {
        None
    }
}

fn unit_word_exec(w: &Vec<u8>) -> (r: Option<Word>)
    ensures
        r == unit_word(w@),
{
    if same_bytes(w, ['s' as u8, 'e' as u8, 'c' as u8, 'o' as u8, 'n' as u8, 'd' as u8]) {
        Some(Word::Unit(Unit::Second))
    } else if same_bytes(w, ['s' as u8, 'e' as u8, 'c' as u8, 'o' as u8, 'n' as u8, 'd' as u8, 's' as u8]) {
        Some(Word::Unit(Unit::Second))
    } else if same_bytes(w, ['s' as u8, 'e' as u8, 'c' as u8]) {
        Some(Word::Unit(Unit::Second))
    } else if same_bytes(w, ['s' as u8, 'e' as u8, 'c' as u8, 's' as u8]) {
        Some(Word::Unit(Unit::Second))
    } else if same_bytes(w, ['m' as u8, 'i' as u8, 'n' as u8, 'u' as u8, 't' as u8, 'e' as u8]) {
        Some(Word::Unit(Unit::Minute))
    } else if same_bytes(w, ['m' as u8, 'i' as u8, 'n' as u8, 'u' as u8, 't' as u8, 'e' as u8, 's' as u8]) {
        Some(Word::Unit(Unit::Minute))
    } else if same_bytes(w, ['m' as u8, 'i' as u8, 'n' as u8]) {
        Some(Word::Unit(Unit::Minute))
    } else if same_bytes(w, ['m' as u8, 'i' as u8, 'n' as u8, 's' as u8]) {
        Some(Word::Unit(Unit::Minute))
    } else if same_bytes(w, ['h' as u8, 'o' as u8, 'u' as u8, 'r' as u8]) {
        Some(Word::Unit(Unit::Hour))
    } else if same_bytes(w, ['h' as u8, 'o' as u8, 'u' as u8, 'r' as u8, 's' as u8]) {
        Some(Word::Unit(Unit::Hour))
    } else if same_bytes(w, ['d' as u8, 'a' as u8, 'y' as u8]) {
        Some(Word::Unit(Unit::Day))
    } else if same_bytes(w, ['d' as u8, 'a' as u8, 'y' as u8, 's' as u8]) {
        Some(Word::Unit(Unit::Day))
    } else if same_bytes(w, ['w' as u8, 'e' as u8, 'e' as u8, 'k' as u8]) {
        Some(Word::Unit(Unit::Week))
    } else if same_bytes(w, ['w' as u8, 'e' as u8, 'e' as u8, 'k' as u8, 's' as u8]) {
        Some(Word::Unit(Unit::Week))
    } else if same_bytes(w, ['m' as u8, 'o' as u8, 'n' as u8, 't' as u8, 'h' as u8]) {
        Some(Word::Unit(Unit::Month))
    } else if same_bytes(w, ['m' as u8, 'o' as u8, 'n' as u8, 't' as u8, 'h' as u8, 's' as u8]) {
        Some(Word::Unit(Unit::Month))
    } else if same_bytes(w, ['y' as u8, 'e' as u8, 'a' as u8, 'r' as u8]) {
        Some(Word::Unit(Unit::Year))
    } else if same_bytes(w, ['y' as u8, 'e' as u8, 'a' as u8, 'r' as u8, 's' as u8]) {
        Some(Word::Unit(Unit::Year))
    } else {
        None
    }
}

/// The meaning of the lower-case word `w`.
pub fn classify(w: &Vec<u8>) -> (r: Word)
    ensures
        r == word_of(w@),
{
    reveal(word_of);
    if let Some(k) = month_name_exec(w) {
        return k;
    }
    if let Some(k) = month_abbreviation_exec(w) {
        return k;
    }
    if let Some(k) = weekday_name_exec(w) {
        return k;
    }
    if let Some(k) = keyword_exec(w) {
        return k;
    }
    if let Some(k) = unit_word_exec(w) {
        return k;
    }
    Word::Other
}
fn digit_byte(b: u8) -> (r: bool)
    ensures
        r == is_digit(b),
{
    '0' as u8 <= b && b <= '9' as u8
}

fn alpha_byte(b: u8) -> (r: bool)
    ensures
        r == is_alpha(b),
{
    ('a' as u8 <= b && b <= 'z' as u8) || ('A' as u8 <= b && b <= 'Z' as u8)
}

fn space_byte(b: u8) -> (r: bool)
    ensures
        r == is_space(b),
{
    b == ' ' as u8 || (9 <= b && b <= 13)
}

fn lower_byte(b: u8) -> (r: u8)
    ensures
        r == to_lower(b),
{
    if 'A' as u8 <= b && b <= 'Z' as u8 {
        b + 32
    } else {
        b
    }
}

/// Reads the run of digits that starts at `i`: its end, and its value capped at
/// one above `NUMBER_LIMIT`.
fn read_number(s: &[u8], i: usize) -> (r: (u64, usize))
    requires
        i < s@.len(),
        is_digit(s@[i as int]),
    ensures
        r.1 == digit_end(s@, i + 1),
        i < r.1 <= s@.len(),
        ({
            let dv = digits_value(s@.subrange(i as int, r.1 as int));
            (dv > NUMBER_LIMIT && r.0 == NUMBER_LIMIT + 1) || (dv <= NUMBER_LIMIT && r.0 == dv)
        }),
{
    let n = s.len();
    let mut j: usize = i + 1;
    let mut v: u64 = (s[i] - '0' as u8) as u64;
    assert(s@.subrange(i as int, j as int).drop_last() =~= Seq::<u8>::empty());
    assert(digits_value(Seq::<u8>::empty()) == 0);
    while j < n && digit_byte(s[j])
        invariant
            n == s@.len(),
            i < j <= n,
            digit_end(s@, i + 1) == digit_end(s@, j as int),
            ({
                let dv = digits_value(s@.subrange(i as int, j as int));
                (dv > NUMBER_LIMIT && v == NUMBER_LIMIT + 1) || (dv <= NUMBER_LIMIT && v == dv)
            }),
        decreases n - j,
    {
        let d = (s[j] - '0' as u8) as u64;
        assert(s@.subrange(i as int, j + 1).drop_last() =~= s@.subrange(i as int, j as int));
        if v > NUMBER_LIMIT {
            v = NUMBER_LIMIT + 1;
        } else {
            let w = v * 10 + d;
            v = if w > NUMBER_LIMIT { NUMBER_LIMIT + 1 } else { w };
        }
        j = j + 1;
    }
    (v, j)
}

/// Reads the run of letters that starts at `i`: its end, and its meaning.
fn read_word(s: &[u8], i: usize) -> (r: (Word, usize))
    requires
        i < s@.len(),
        is_alpha(s@[i as int]),
    ensures
        r.1 == alpha_end(s@, i + 1),
        i < r.1 <= s@.len(),
        r.0 == word_of(lower_seq(s@.subrange(i as int, r.1 as int))),
{
    let n = s.len();
    let mut j: usize = i + 1;
    let mut w: Vec<u8> = Vec::new();
    w.push(lower_byte(s[i]));
    assert(w@ =~= lower_seq(s@.subrange(i as int, j as int)));
    while j < n && alpha_byte(s[j])
        invariant
            n == s@.len(),
            i < j <= n,
            alpha_end(s@, i + 1) == alpha_end(s@, j as int),
            w@ == lower_seq(s@.subrange(i as int, j as int)),
        decreases n - j,
    {
        w.push(lower_byte(s[j]));
        j = j + 1;
        assert(w@ =~= lower_seq(s@.subrange(i as int, j as int)));
    }
    (classify(&w), j)
}

/// Splits `text` into tokens: runs of digits, runs of letters, and single other
/// bytes, with white space between them dropped. A number above `NUMBER_LIMIT`
/// fails with `OutOfRangeField` over its digits.
pub fn tokenize(text: &str) -> (r: Result<Vec<Token>, ParseError>)
    ensures
        view_tokens(r) == tokens_of(text.spec_bytes()),
{
    let s = text.as_bytes();
    let n = s.len();
    let mut out: Vec<Token> = Vec::new();
    let mut i: usize = 0;
    while i < n
        invariant
            s@ == text.spec_bytes(),
            n == s@.len(),
            i <= n,
            tokens_of(s@) == prepend(out@, tokens_from(s@, i as int)),
        decreases n - i,
    {
        let b = s[i];
        let ghost prev = out@;
        if space_byte(b) {
            i = i + 1;
        } else {
            let (kind, j) = if digit_byte(b) {
                let (v, j) = read_number(s, i);
                if v > NUMBER_LIMIT {
                    return Err(ParseError { kind: ErrorKind::OutOfRangeField, start: i, end: j });
                }
                (TokenKind::Number { value: v, digits: j - i }, j)
            } else if alpha_byte(b) {
                let (w, j) = read_word(s, i);
                (TokenKind::Word(w), j)
            } else {
                (TokenKind::Symbol(b), i + 1)
            };
            let t = Token { kind, start: i, end: j };
            out.push(t);
            proof {
                if let Ok(rest) = tokens_from(s@, j as int) {
                    assert(prev.push(t) + rest =~= prev + (seq![t] + rest));
                }
            }
            i = j;
        }
    }
    proof {
        assert(out@ + Seq::<Token>::empty() =~= out@);
    }
    Ok(out)
}

} // verus!
