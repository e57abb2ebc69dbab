//! Decimal and fixed-point text of unsigned amounts.
use vstd::prelude::*;

verus! {

/// Relies on `String::push`: appends one character.
#[verifier::external_body]
pub(crate) fn push_char(s: &mut String, c: char)
    ensures
        final(s)@ == old(s)@.push(c),
{
    s.push(c)
}

/// The character of a decimal digit.
pub open spec fn digit_char(d: int) -> char {
    if d == 0 {
        '0'
    } else if d == 1 {
        '1'
    } else if d == 2 {
        '2'
    } else if d == 3 {
        '3'
    } else if d == 4 {
        '4'
    } else if d == 5 {
        '5'
    } else if d == 6 {
        '6'
    } else if d == 7 {
        '7'
    } else if d == 8 {
        '8'
    } else {
        '9'
    }
}

/// The decimal digits of `n`, without leading zeros (`0` for zero).
pub open spec fn decimal(n: nat) -> Seq<char>
    decreases n,
{
    if n < 10 {
        seq![digit_char(n as int)]
    } else {
        decimal(n / 10).push(digit_char((n % 10) as int))
    }
}

/// `v` tenths, written with one decimal place: 15 gives "1.5".
pub open spec fn fixed1_text(v: nat) -> Seq<char> {
    decimal(v / 10) + seq!['.', digit_char((v % 10) as int)]
}

/// `v` hundredths, written with two decimal places: 105 gives "1.05".
pub open spec fn fixed2_text(v: nat) -> Seq<char> {
    decimal(v / 100) + seq!['.', digit_char(((v / 10) % 10) as int), digit_char((v % 10) as int)]
}

fn digit(d: u128) -> (c: char)
    requires
        d < 10,
    ensures
        c == digit_char(d as int),
{
    if d == 0 {
        '0'
    } else if d == 1 {
        '1'
    } else if d == 2 {
        '2'
    } else if d == 3 {
        '3'
    } else if d == 4 {
        '4'
    } else if d == 5 {
        '5'
    } else if d == 6 {
        '6'
    } else if d == 7 {
        '7'
    } else if d == 8 {
        '8'
    } else {
        '9'
    }
}

/// Appends the decimal digits of `n` to `s`.
pub fn push_decimal(s: &mut String, n: u128)
    ensures
        final(s)@ == old(s)@ + decimal(n as nat),
    decreases n,
{
    if n < 10 {
        push_char(s, digit(n));
        assert(old(s)@.push(digit_char(n as int)) =~= old(s)@ + decimal(n as nat));
    } else {
        push_decimal(s, n / 10);
        push_char(s, digit(n % 10));
        assert(old(s)@ + decimal((n / 10) as nat) + seq![digit_char((n % 10) as int)] =~= old(s)@
            + decimal(n as nat));
    }
}

/// The decimal text of `n`.
pub fn decimal_text(n: u128) -> (r: String)
    ensures
        r@ == decimal(n as nat),
{
    let mut s = String::new();
    push_decimal(&mut s, n);
    assert(Seq::<char>::empty() + decimal(n as nat) =~= decimal(n as nat));
    s
}

/// `v` tenths with one decimal place.
pub fn fixed1(v: u128) -> (r: String)
    ensures
        r@ == fixed1_text(v as nat),
{
    let mut s = String::new();
    push_decimal(&mut s, v / 10);
    push_char(&mut s, '.');
    push_char(&mut s, digit(v % 10));
    assert(s@ =~= fixed1_text(v as nat));
    s
}

/// `v` hundredths with two decimal places.
pub fn fixed2(v: u128) -> (r: String)
    ensures
        r@ == fixed2_text(v as nat),
{
    let mut s = String::new();
    push_decimal(&mut s, v / 100);
    push_char(&mut s, '.');
    push_char(&mut s, digit((v / 10) % 10));
    push_char(&mut s, digit(v % 10));
    assert(s@ =~= fixed2_text(v as nat));
    s
}

} // verus!
