//! Writing a date and time as text that the parser reads back.
use vstd::prelude::*;
use crate::calendar::DateTime;
use crate::token::digits_value;

verus! {

/// The ASCII digit for `n`, 0 to 9.
pub open spec fn digit_char(n: int) -> u8 {
    (n + '0' as u8) as u8
}

/// `n` (0 to 99) as two digits.
pub open spec fn two_digits(n: int) -> Seq<u8> {
    seq![digit_char(n / 10), digit_char(n % 10)]
}

/// `n` (0 to 9999) as four digits.
pub open spec fn four_digits(n: int) -> Seq<u8> {
    seq![digit_char(n / 1000), digit_char(n / 100 % 10), digit_char(n / 10 % 10), digit_char(n % 10)]
}

/// `t` written as `YYYY-MM-DD HH:MM:SS`.
pub open spec fn format_spec(t: DateTime) -> Seq<u8> {
    four_digits(t.year as int) + seq!['-' as u8] + two_digits(t.month as int) + seq!['-' as u8]
        + two_digits(t.day as int) + seq![' ' as u8] + two_digits(t.hour as int) + seq![':' as u8]
        + two_digits(t.minute as int) + seq![':' as u8] + two_digits(t.second as int)
}

/// Two digits read back give their number.
pub proof fn lemma_two_digits(n: int)
    requires
        0 <= n < 100,
    ensures
        digits_value(two_digits(n)) == n,
{
    reveal_with_fuel(digits_value, 3);
    let s = two_digits(n);
    assert(s.drop_last() =~= seq![digit_char(n / 10)]);
    assert(s.drop_last().drop_last() =~= Seq::<u8>::empty());
    vstd::arithmetic::div_mod::lemma_fundamental_div_mod(n, 10);
}

/// Four digits read back give their number.
pub proof fn lemma_four_digits(n: int)
    requires
        0 <= n < 10000,
    ensures
        digits_value(four_digits(n)) == n,
{
    reveal_with_fuel(digits_value, 5);
    let s = four_digits(n);
    assert(s.drop_last() =~= seq![digit_char(n / 1000), digit_char(n / 100 % 10), digit_char(n / 10 % 10)]);
    assert(s.drop_last().drop_last() =~= seq![digit_char(n / 1000), digit_char(n / 100 % 10)]);
    assert(s.drop_last().drop_last().drop_last() =~= seq![digit_char(n / 1000)]);
    assert(s.drop_last().drop_last().drop_last().drop_last() =~= Seq::<u8>::empty());
    vstd::arithmetic::div_mod::lemma_fundamental_div_mod(n, 10);
    vstd::arithmetic::div_mod::lemma_fundamental_div_mod(n / 10, 10);
    vstd::arithmetic::div_mod::lemma_fundamental_div_mod(n / 100, 10);
    vstd::arithmetic::div_mod::lemma_div_denominator(n, 10, 10);
    vstd::arithmetic::div_mod::lemma_div_denominator(n, 100, 10);
}

fn push_two(v: &mut Vec<u8>, n: u8)
    requires
        n < 100,
    ensures
        final(v)@ == old(v)@ + two_digits(n as int),
{
    v.push(n / 10 + '0' as u8);
    v.push(n % 10 + '0' as u8);
    assert(final(v)@ =~= old(v)@ + two_digits(n as int));
}

/// Writes `t` as the ASCII text `YYYY-MM-DD HH:MM:SS`, which `parse` reads back.
pub fn format_bytes(t: &DateTime) -> (r: Vec<u8>)
    requires
        t.wf(),
    ensures
        r@ == format_spec(*t),
{
    let mut v: Vec<u8> = Vec::new();
    let y = t.year as u16;
    v.push((y / 1000) as u8 + '0' as u8);
    v.push((y / 100 % 10) as u8 + '0' as u8);
    v.push((y / 10 % 10) as u8 + '0' as u8);
    v.push((y % 10) as u8 + '0' as u8);
    assert(v@ =~= four_digits(t.year as int));
    v.push('-' as u8);
    push_two(&mut v, t.month);
    v.push('-' as u8);
    push_two(&mut v, t.day);
    v.push(' ' as u8);
    push_two(&mut v, t.hour);
    v.push(':' as u8);
    push_two(&mut v, t.minute);
    v.push(':' as u8);
    push_two(&mut v, t.second);
    assert(v@ =~= format_spec(*t));
    v
}

} // verus!
