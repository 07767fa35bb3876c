//! Properties of the parser as a whole, proved over its specification.
use vstd::prelude::*;
use vstd::string::StringSliceAdditionalSpecFns;
use crate::calendar::{
    Date, DateTime, MAX_YEAR, MIN_YEAR, add_days_spec, lemma_shift_backward_some, lemma_shift_forward_some, at_time, day_number, lemma_shift_days, next_date,
    add_months_spec, days_in_month, shift_days, weekday_of,
};
use crate::error::{ErrorKind, ParseError, error_at};
use crate::grammar::{DatePart, Intent, Ordinal};
use crate::format::{digit_char, format_spec, four_digits, lemma_four_digits, lemma_two_digits, two_digits};
use crate::parse_spec;
use crate::resolve::{at_default, default_hour_of, resolution};
use crate::token::{
    Token, TokenKind, Unit, Word, alpha_end, digit_end, digits_value, is_alpha, is_digit, is_space,
    lower_seq, prepend, tokens_from, tokens_of, word_of,
};

verus! {

proof fn lemma_alpha_end_at(s: Seq<u8>, k: int, j: int)
    requires
        0 <= k <= j <= s.len(),
        forall|q: int| k <= q < j ==> is_alpha(#[trigger] s[q]),
        j == s.len() || !is_alpha(s[j]),
    ensures
        alpha_end(s, k) == j,
    decreases j - k,
{
    if k < j {
        lemma_alpha_end_at(s, k + 1, j);
    }
}

proof fn lemma_digit_end_at(s: Seq<u8>, k: int, j: int)
    requires
        0 <= k <= j <= s.len(),
        forall|q: int| k <= q < j ==> is_digit(#[trigger] s[q]),
        j == s.len() || !is_digit(s[j]),
    ensures
        digit_end(s, k) == j,
    decreases j - k,
{
    if k < j {
        lemma_digit_end_at(s, k + 1, j);
    }
}

/// The tokens from `i` when the letters `i..j` form a word.
proof fn lemma_word_step(s: Seq<u8>, i: int, j: int)
    requires
        0 <= i < j <= s.len(),
        forall|q: int| i <= q < j ==> is_alpha(#[trigger] s[q]),
        j == s.len() || !is_alpha(s[j]),
    ensures
        tokens_from(s, i) == prepend(
            seq![
                Token {
                    kind: TokenKind::Word(word_of(lower_seq(s.subrange(i, j)))),
                    start: i as usize,
                    end: j as usize,
                },
            ],
            tokens_from(s, j),
        ),
{
    lemma_alpha_end_at(s, i + 1, j);
    assert(!is_digit(s[i]) && !is_space(s[i]));
    if let Ok(rest) = tokens_from(s, j) {
        let t = Token {
            kind: TokenKind::Word(word_of(lower_seq(s.subrange(i, j)))),
            start: i as usize,
            end: j as usize,
        };
        assert(seq![t] + rest == seq![t] + rest);
    }
}

/// The tokens from `i` when the digits `i..j` form a number within the limit.
proof fn lemma_number_step(s: Seq<u8>, i: int, j: int)
    requires
        0 <= i < j <= s.len(),
        forall|q: int| i <= q < j ==> is_digit(#[trigger] s[q]),
        j == s.len() || !is_digit(s[j]),
        digits_value(s.subrange(i, j)) <= crate::token::NUMBER_LIMIT,
    ensures
        tokens_from(s, i) == prepend(
            seq![
                Token {
                    kind: TokenKind::Number {
                        value: digits_value(s.subrange(i, j)) as u64,
                        digits: (j - i) as usize,
                    },
                    start: i as usize,
                    end: j as usize,
                },
            ],
            tokens_from(s, j),
        ),
{
    lemma_digit_end_at(s, i + 1, j);
}

proof fn lemma_space_step(s: Seq<u8>, i: int)
    requires
        0 <= i < s.len(),
        is_space(s[i]),
    ensures
        tokens_from(s, i) == tokens_from(s, i + 1),
{
}

proof fn lemma_tokens_end(s: Seq<u8>)
    ensures
        tokens_from(s, s.len() as int) == Ok::<Seq<Token>, ParseError>(Seq::empty()),
{
}

pub open spec fn word_token(w: Word, start: int, end: int) -> Token {
    Token { kind: TokenKind::Word(w), start: start as usize, end: end as usize }
}

proof fn lemma_tokens_today()
    ensures
        tokens_of("today".spec_bytes()) == Ok::<Seq<Token>, ParseError>(seq![word_token(Word::Today, 0, 5)]),
{
    reveal_strlit("today");
    vstd::string::is_ascii_spec_bytes("today");
    let s = "today".spec_bytes();
    assert(s =~= seq!['t' as u8, 'o' as u8, 'd' as u8, 'a' as u8, 'y' as u8]);
    lemma_word_step(s, 0, 5);
    lemma_tokens_end(s);
    assert(lower_seq(s.subrange(0, 5)) =~= s);
    reveal(word_of);
    assert(seq![word_token(Word::Today, 0, 5)] + Seq::<Token>::empty() =~= seq![word_token(Word::Today, 0, 5)]);
}

proof fn lemma_tokens_tomorrow()
    ensures
        tokens_of("tomorrow".spec_bytes()) == Ok::<Seq<Token>, ParseError>(seq![word_token(Word::Tomorrow, 0, 8)]),
{
    reveal_strlit("tomorrow");
    vstd::string::is_ascii_spec_bytes("tomorrow");
    let s = "tomorrow".spec_bytes();
    assert(s =~= seq!['t' as u8, 'o' as u8, 'm' as u8, 'o' as u8, 'r' as u8, 'r' as u8, 'o' as u8, 'w' as u8]);
    lemma_word_step(s, 0, 8);
    lemma_tokens_end(s);
    assert(lower_seq(s.subrange(0, 8)) =~= s);
    reveal(word_of);
    assert(seq![word_token(Word::Tomorrow, 0, 8)] + Seq::<Token>::empty() =~= seq![word_token(Word::Tomorrow, 0, 8)]);
}

/// The text "today" names the reference date, at the default hour or at midnight.
pub proof fn lemma_parse_today(now: DateTime, default_hour: Option<u8>)
    requires
        now.wf(),
    ensures
        parse_spec("today".spec_bytes(), now, default_hour) == Ok::<DateTime, ParseError>(
            at_time(now.date_of(), default_hour_of(default_hour), 0, 0),
        ),
{
    lemma_tokens_today();
    assert(shift_days(now.date_of(), 0) == Some(now.date_of()));
}

/// The text "tomorrow" names the day after the reference date, whose day number is
/// one larger, at the default hour or at midnight.
pub proof fn lemma_parse_tomorrow(now: DateTime, default_hour: Option<u8>)
    requires
        now.wf(),
    ensures
        parse_spec("tomorrow".spec_bytes(), now, default_hour) == at_default(next_date(now.date_of()), default_hour),
        parse_spec("tomorrow".spec_bytes(), now, default_hour) matches Ok(r) ==> day_number(r.date_of())
            == day_number(now.date_of()) + 1 && r.hour == default_hour_of(default_hour) && r.minute == 0
            && r.second == 0,
        now.date_of() != (Date { year: MAX_YEAR, month: 12, day: 31 }) ==> parse_spec(
            "tomorrow".spec_bytes(),
            now,
            default_hour,
        ) is Ok,
{
    lemma_tokens_tomorrow();
    let d = now.date_of();
    crate::calendar::lemma_next_date(d);
    if let Some(e) = next_date(d) {
        assert(shift_days(e, 0) == Some(e));
        assert(shift_days(d, 1) == Some(e));
    }
}

/// The empty text is not recognised, and the error points at no part of it.
pub proof fn lemma_parse_empty(now: DateTime, default_hour: Option<u8>)
    ensures
        parse_spec("".spec_bytes(), now, default_hour) == Err::<DateTime, ParseError>(
            error_at(ErrorKind::UnrecognizedInput, 0, 0),
        ),
{
    reveal_strlit("");
    vstd::string::is_ascii_spec_bytes("");
    lemma_tokens_end("".spec_bytes());
}

pub open spec fn number_token(value: u64, digits: int, start: int, end: int) -> Token {
    Token { kind: TokenKind::Number { value, digits: digits as usize }, start: start as usize, end: end as usize }
}

proof fn lemma_tokens_days_ago()
    ensures
        tokens_of("3 days ago".spec_bytes()) == Ok::<Seq<Token>, ParseError>(
            seq![
                number_token(3, 1, 0, 1),
                word_token(Word::Unit(Unit::Day), 2, 6),
                word_token(Word::Ago, 7, 10),
            ],
        ),
{
    reveal_strlit("3 days ago");
    vstd::string::is_ascii_spec_bytes("3 days ago");
    let s = "3 days ago".spec_bytes();
    assert(s =~= seq![
        '3' as u8, ' ' as u8, 'd' as u8, 'a' as u8, 'y' as u8, 's' as u8, ' ' as u8, 'a' as u8,
        'g' as u8, 'o' as u8,
    ]);
    assert(s.subrange(0, 1).drop_last() =~= Seq::<u8>::empty());
    assert(digits_value(Seq::<u8>::empty()) == 0);
    assert(digits_value(s.subrange(0, 1)) == 3);
    lemma_number_step(s, 0, 1);
    lemma_space_step(s, 1);
    lemma_word_step(s, 2, 6);
    lemma_space_step(s, 6);
    lemma_word_step(s, 7, 10);
    lemma_tokens_end(s);
    assert(lower_seq(s.subrange(2, 6)) =~= seq!['d' as u8, 'a' as u8, 'y' as u8, 's' as u8]);
    assert(lower_seq(s.subrange(7, 10)) =~= seq!['a' as u8, 'g' as u8, 'o' as u8]);
    reveal(word_of);
    let a = word_token(Word::Ago, 7, 10);
    let b = word_token(Word::Unit(Unit::Day), 2, 6);
    let c = number_token(3, 1, 0, 1);
    assert(seq![a] + Seq::<Token>::empty() =~= seq![a]);
    assert(seq![b] + seq![a] =~= seq![b, a]);
    assert(seq![c] + seq![b, a] =~= seq![c, b, a]);
}

/// The text "3 days ago" names the day three days before the reference date, at the
/// default hour or at midnight.
pub proof fn lemma_parse_days_ago(now: DateTime, default_hour: Option<u8>)
    requires
        now.wf(),
    ensures
        parse_spec("3 days ago".spec_bytes(), now, default_hour) == at_default(
            add_days_spec(now.date_of(), -3),
            default_hour,
        ),
        parse_spec("3 days ago".spec_bytes(), now, default_hour) matches Ok(r) ==> day_number(r.date_of())
            == day_number(now.date_of()) - 3 && r.hour == default_hour_of(default_hour) && r.minute == 0
            && r.second == 0,
        now.year > MIN_YEAR ==> parse_spec("3 days ago".spec_bytes(), now, default_hour) is Ok,
{
    lemma_tokens_days_ago();
    lemma_shift_days(now.date_of(), -3);
    if now.year > MIN_YEAR {
        lemma_shift_backward_some(now.date_of(), 3);
    }
}

/// "next" a weekday names a day one to seven days after the reference date that
/// falls on that weekday.
pub proof fn lemma_next_weekday(now: DateTime, weekday: u8, default_hour: Option<u8>)
    requires
        now.wf(),
        weekday < 7,
    ensures
        resolution(
            Intent::Date(DatePart::Weekday { ordinal: Ordinal::Next, weekday }),
            now,
            default_hour,
        ) matches Ok(r) ==> {
            let gap = day_number(r.date_of()) - day_number(now.date_of());
            1 <= gap <= 7 && weekday_of(r.date_of()) == weekday
        },
        now.year < MAX_YEAR ==> resolution(
            Intent::Date(DatePart::Weekday { ordinal: Ordinal::Next, weekday }),
            now,
            default_hour,
        ) is Ok,
{
    let d = now.date_of();
    let dn = day_number(d);
    let cur = weekday_of(d);
    let delta = (weekday - cur + 6) % 7 + 1;
    vstd::arithmetic::div_mod::lemma_fundamental_div_mod(dn, 7);
    let q = dn / 7;
    lemma_shift_days(d, delta);
    if now.year < MAX_YEAR {
        lemma_shift_forward_some(d, delta);
    }
    if weekday - cur + 6 >= 7 {
        assert(delta == weekday - cur);
        vstd::arithmetic::div_mod::lemma_fundamental_div_mod_converse(dn + delta, 7, q, weekday as int);
    } else {
        assert(delta == weekday - cur + 7);
        vstd::arithmetic::div_mod::lemma_fundamental_div_mod_converse(dn + delta, 7, q + 1, weekday as int);
    }
}

proof fn lemma_tokens_next_monday()
    ensures
        tokens_of("next monday".spec_bytes()) == Ok::<Seq<Token>, ParseError>(
            seq![word_token(Word::Next, 0, 4), word_token(Word::Weekday(0), 5, 11)],
        ),
{
    reveal_strlit("next monday");
    vstd::string::is_ascii_spec_bytes("next monday");
    let s = "next monday".spec_bytes();
    assert(s =~= seq![
        'n' as u8, 'e' as u8, 'x' as u8, 't' as u8, ' ' as u8, 'm' as u8, 'o' as u8, 'n' as u8,
        'd' as u8, 'a' as u8, 'y' as u8,
    ]);
    lemma_word_step(s, 0, 4);
    lemma_space_step(s, 4);
    lemma_word_step(s, 5, 11);
    lemma_tokens_end(s);
    assert(lower_seq(s.subrange(0, 4)) =~= seq!['n' as u8, 'e' as u8, 'x' as u8, 't' as u8]);
    assert(lower_seq(s.subrange(5, 11)) =~= seq![
        'm' as u8, 'o' as u8, 'n' as u8, 'd' as u8, 'a' as u8, 'y' as u8,
    ]);
    reveal(word_of);
    let a = word_token(Word::Next, 0, 4);
    let b = word_token(Word::Weekday(0), 5, 11);
    assert(seq![b] + Seq::<Token>::empty() =~= seq![b]);
    assert(seq![a] + seq![b] =~= seq![a, b]);
}

/// The text "next monday" names a Monday one to seven days after the reference date.
pub proof fn lemma_parse_next_monday(now: DateTime, default_hour: Option<u8>)
    requires
        now.wf(),
    ensures
        parse_spec("next monday".spec_bytes(), now, default_hour) == resolution(
            Intent::Date(DatePart::Weekday { ordinal: Ordinal::Next, weekday: 0 }),
            now,
            default_hour,
        ),
        parse_spec("next monday".spec_bytes(), now, default_hour) matches Ok(r) ==> {
            let gap = day_number(r.date_of()) - day_number(now.date_of());
            1 <= gap <= 7 && weekday_of(r.date_of()) == 0
        },
        now.year < MAX_YEAR ==> parse_spec("next monday".spec_bytes(), now, default_hour) is Ok,
{
    lemma_tokens_next_monday();
    lemma_next_weekday(now, 0, default_hour);
}

pub open spec fn sym_token(c: u8, start: int) -> Token {
    Token { kind: TokenKind::Symbol(c), start: start as usize, end: (start + 1) as usize }
}

proof fn lemma_symbol_step(s: Seq<u8>, i: int)
    requires
        0 <= i < s.len(),
        !is_space(s[i]),
        !is_digit(s[i]),
        !is_alpha(s[i]),
    ensures
        tokens_from(s, i) == prepend(seq![sym_token(s[i], i)], tokens_from(s, i + 1)),
{
}

/// The tokens of `t` as `format_bytes` writes it.
pub open spec fn format_tokens(t: DateTime) -> Seq<Token> {
    seq![
        number_token(t.year as u64, 4, 0, 4),
        sym_token('-' as u8, 4),
        number_token(t.month as u64, 2, 5, 7),
        sym_token('-' as u8, 7),
        number_token(t.day as u64, 2, 8, 10),
        number_token(t.hour as u64, 2, 11, 13),
        sym_token(':' as u8, 13),
        number_token(t.minute as u64, 2, 14, 16),
        sym_token(':' as u8, 16),
        number_token(t.second as u64, 2, 17, 19),
    ]
}

#[verifier::rlimit(50)]
proof fn lemma_format_tokens(t: DateTime)
    requires
        t.wf(),
    ensures
        tokens_of(format_spec(t)) == Ok::<Seq<Token>, ParseError>(format_tokens(t)),
{
    let s = format_spec(t);
    let y = t.year as int;
    let mo = t.month as int;
    let d = t.day as int;
    let h = t.hour as int;
    let mi = t.minute as int;
    let sec = t.second as int;
    assert(s =~= seq![
        digit_char(y / 1000), digit_char(y / 100 % 10), digit_char(y / 10 % 10), digit_char(y % 10),
        '-' as u8, digit_char(mo / 10), digit_char(mo % 10), '-' as u8, digit_char(d / 10),
        digit_char(d % 10), ' ' as u8, digit_char(h / 10), digit_char(h % 10), ':' as u8,
        digit_char(mi / 10), digit_char(mi % 10), ':' as u8, digit_char(sec / 10),
        digit_char(sec % 10),
    ]);
    assert(s.subrange(0, 4) =~= four_digits(y));
    assert(s.subrange(5, 7) =~= two_digits(mo));
    assert(s.subrange(8, 10) =~= two_digits(d));
    assert(s.subrange(11, 13) =~= two_digits(h));
    assert(s.subrange(14, 16) =~= two_digits(mi));
    assert(s.subrange(17, 19) =~= two_digits(sec));
    lemma_four_digits(y);
    lemma_two_digits(mo);
    lemma_two_digits(d);
    lemma_two_digits(h);
    lemma_two_digits(mi);
    lemma_two_digits(sec);
    lemma_number_step(s, 0, 4);
    lemma_symbol_step(s, 4);
    lemma_number_step(s, 5, 7);
    lemma_symbol_step(s, 7);
    lemma_number_step(s, 8, 10);
    lemma_space_step(s, 10);
    lemma_number_step(s, 11, 13);
    lemma_symbol_step(s, 13);
    lemma_number_step(s, 14, 16);
    lemma_symbol_step(s, 16);
    lemma_number_step(s, 17, 19);
    lemma_tokens_end(s);
    let k0 = number_token(y as u64, 4, 0, 4);
    let k1 = sym_token('-' as u8, 4);
    let k2 = number_token(mo as u64, 2, 5, 7);
    let k3 = sym_token('-' as u8, 7);
    let k4 = number_token(d as u64, 2, 8, 10);
    let k5 = number_token(h as u64, 2, 11, 13);
    let k6 = sym_token(':' as u8, 13);
    let k7 = number_token(mi as u64, 2, 14, 16);
    let k8 = sym_token(':' as u8, 16);
    let k9 = number_token(sec as u64, 2, 17, 19);
    assert(seq![k9] + Seq::<Token>::empty() =~= seq![k9]);
    assert(seq![k8] + seq![k9] =~= seq![k8, k9]);
    assert(seq![k7] + seq![k8, k9] =~= seq![k7, k8, k9]);
    assert(seq![k6] + seq![k7, k8, k9] =~= seq![k6, k7, k8, k9]);
    assert(seq![k5] + seq![k6, k7, k8, k9] =~= seq![k5, k6, k7, k8, k9]);
    assert(seq![k4] + seq![k5, k6, k7, k8, k9] =~= seq![k4, k5, k6, k7, k8, k9]);
    assert(seq![k3] + seq![k4, k5, k6, k7, k8, k9] =~= seq![k3, k4, k5, k6, k7, k8, k9]);
    assert(seq![k2] + seq![k3, k4, k5, k6, k7, k8, k9] =~= seq![k2, k3, k4, k5, k6, k7, k8, k9]);
    assert(seq![k1] + seq![k2, k3, k4, k5, k6, k7, k8, k9] =~= seq![k1, k2, k3, k4, k5, k6, k7, k8, k9]);
    assert(seq![k0] + seq![k1, k2, k3, k4, k5, k6, k7, k8, k9] =~= seq![k0, k1, k2, k3, k4, k5, k6, k7, k8, k9]);
    assert(format_tokens(t) =~= seq![k0, k1, k2, k3, k4, k5, k6, k7, k8, k9]);
}

/// A date and time written by `format_bytes` reads back as itself, whatever the
/// reference instant and the default hour.
pub proof fn lemma_round_trip(t: DateTime, now: DateTime, default_hour: Option<u8>)
    requires
        t.wf(),
        now.wf(),
    ensures
        parse_spec(format_spec(t), now, default_hour) == Ok::<DateTime, ParseError>(t),
{
    lemma_format_tokens(t);
}

proof fn lemma_tokens_month_from_now()
    ensures
        tokens_of("1 month from now".spec_bytes()) == Ok::<Seq<Token>, ParseError>(
            seq![
                number_token(1, 1, 0, 1),
                word_token(Word::Unit(Unit::Month), 2, 7),
                word_token(Word::From, 8, 12),
                word_token(Word::Now, 13, 16),
            ],
        ),
{
    reveal_strlit("1 month from now");
    vstd::string::is_ascii_spec_bytes("1 month from now");
    let s = "1 month from now".spec_bytes();
    assert(s =~= seq![
        '1' as u8, ' ' as u8, 'm' as u8, 'o' as u8, 'n' as u8, 't' as u8, 'h' as u8, ' ' as u8,
        'f' as u8, 'r' as u8, 'o' as u8, 'm' as u8, ' ' as u8, 'n' as u8, 'o' as u8, 'w' as u8,
    ]);
    assert(s.subrange(0, 1).drop_last() =~= Seq::<u8>::empty());
    assert(digits_value(Seq::<u8>::empty()) == 0);
    assert(digits_value(s.subrange(0, 1)) == 1);
    lemma_number_step(s, 0, 1);
    lemma_space_step(s, 1);
    lemma_word_step(s, 2, 7);
    lemma_space_step(s, 7);
    lemma_word_step(s, 8, 12);
    lemma_space_step(s, 12);
    lemma_word_step(s, 13, 16);
    lemma_tokens_end(s);
    assert(lower_seq(s.subrange(2, 7)) =~= seq!['m' as u8, 'o' as u8, 'n' as u8, 't' as u8, 'h' as u8]);
    assert(lower_seq(s.subrange(8, 12)) =~= seq!['f' as u8, 'r' as u8, 'o' as u8, 'm' as u8]);
    assert(lower_seq(s.subrange(13, 16)) =~= seq!['n' as u8, 'o' as u8, 'w' as u8]);
    reveal(word_of);
    let a = number_token(1, 1, 0, 1);
    let b = word_token(Word::Unit(Unit::Month), 2, 7);
    let c = word_token(Word::From, 8, 12);
    let d = word_token(Word::Now, 13, 16);
    assert(seq![d] + Seq::<Token>::empty() =~= seq![d]);
    assert(seq![c] + seq![d] =~= seq![c, d]);
    assert(seq![b] + seq![c, d] =~= seq![b, c, d]);
    assert(seq![a] + seq![b, c, d] =~= seq![a, b, c, d]);
}

/// The text "1 month from now" names the same day of the next month, or that
/// month's last day when it is shorter, at the default hour or at midnight.
pub proof fn lemma_parse_month_from_now(now: DateTime, default_hour: Option<u8>)
    requires
        now.wf(),
    ensures
        parse_spec("1 month from now".spec_bytes(), now, default_hour) == at_default(
            add_months_spec(now.date_of(), 1),
            default_hour,
        ),
        parse_spec("1 month from now".spec_bytes(), now, default_hour) matches Ok(r) ==> {
            let next_month = if now.month == 12 { 1int } else { now.month + 1 };
            let year = if now.month == 12 { now.year + 1 } else { now.year as int };
            let last = days_in_month(year, next_month);
            &&& r.year == year
            &&& r.month == next_month
            &&& r.day == if now.day <= last { now.day as int } else { last }
        },
        now.year < MAX_YEAR ==> parse_spec("1 month from now".spec_bytes(), now, default_hour) is Ok,
{
    lemma_tokens_month_from_now();
}

/// "last" a weekday names a day one to seven days before the reference date that
/// falls on that weekday.
pub proof fn lemma_last_weekday(now: DateTime, weekday: u8, default_hour: Option<u8>)
    requires
        now.wf(),
        weekday < 7,
    ensures
        resolution(
            Intent::Date(DatePart::Weekday { ordinal: Ordinal::Last, weekday }),
            now,
            default_hour,
        ) matches Ok(r) ==> {
            let gap = day_number(now.date_of()) - day_number(r.date_of());
            1 <= gap <= 7 && weekday_of(r.date_of()) == weekday
        },
        now.year > MIN_YEAR ==> resolution(
            Intent::Date(DatePart::Weekday { ordinal: Ordinal::Last, weekday }),
            now,
            default_hour,
        ) is Ok,
{
    let d = now.date_of();
    let dn = day_number(d);
    let cur = weekday_of(d);
    let back = (cur - weekday + 6) % 7 + 1;
    vstd::arithmetic::div_mod::lemma_fundamental_div_mod(dn, 7);
    let q = dn / 7;
    lemma_shift_days(d, -back);
    if now.year > MIN_YEAR {
        lemma_shift_backward_some(d, back);
    }
    if cur - weekday + 6 >= 7 {
        assert(back == cur - weekday);
        vstd::arithmetic::div_mod::lemma_fundamental_div_mod_converse(dn - back, 7, q, weekday as int);
    } else {
        assert(back == cur - weekday + 7);
        vstd::arithmetic::div_mod::lemma_fundamental_div_mod_converse(dn - back, 7, q - 1, weekday as int);
    }
}

/// "this" a weekday names the day of that weekday in the reference date's week,
/// which starts on Monday; the reference date itself when the weekdays agree.
pub proof fn lemma_this_weekday(now: DateTime, weekday: u8, default_hour: Option<u8>)
    requires
        now.wf(),
        weekday < 7,
    ensures
        resolution(
            Intent::Date(DatePart::Weekday { ordinal: Ordinal::This, weekday }),
            now,
            default_hour,
        ) matches Ok(r) ==> {
            &&& day_number(r.date_of()) - weekday == day_number(now.date_of()) - weekday_of(now.date_of())
            &&& weekday_of(r.date_of()) == weekday
        },
        weekday == weekday_of(now.date_of()) ==> resolution(
            Intent::Date(DatePart::Weekday { ordinal: Ordinal::This, weekday }),
            now,
            default_hour,
        ) == Ok::<DateTime, ParseError>(at_time(now.date_of(), default_hour_of(default_hour), 0, 0)),
{
    let d = now.date_of();
    let dn = day_number(d);
    let cur = weekday_of(d);
    vstd::arithmetic::div_mod::lemma_fundamental_div_mod(dn, 7);
    let q = dn / 7;
    lemma_shift_days(d, weekday - cur);
    vstd::arithmetic::div_mod::lemma_fundamental_div_mod_converse(dn + weekday - cur, 7, q, weekday as int);
    assert(shift_days(d, 0) == Some(d));
}

} // verus!
