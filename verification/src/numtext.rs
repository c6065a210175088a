//! Decimal text of integers.
use vstd::prelude::*;
use crate::text::{char_from_ascii, push_char};

verus! {

/// The character of one decimal digit.
pub open spec fn digit_char(d: int) -> char {
    (48 + d) as char
}

/// Decimal digits of a natural number, most significant first, without leading zeros.
pub open spec fn nat_text(n: nat) -> Seq<char>
    decreases n,
{
    if n < 10 {
        seq![digit_char(n as int)]
    } else {
        nat_text(n / 10).push(digit_char((n % 10) as int))
    }
}

/// Decimal text of an integer, with a leading '-' when negative.
pub open spec fn int_text(n: int) -> Seq<char> {
    if n < 0 {
        seq!['-'] + nat_text((-n) as nat)
    } else {
        nat_text(n as nat)
    }
}

/// A run of `n` zero characters.
pub open spec fn zeros(n: nat) -> Seq<char> {
    Seq::new(n, |i: int| '0')
}

/// Every decimal text is made of ASCII characters and is not empty.
pub proof fn lemma_nat_text_nonempty(n: nat)
    ensures
        nat_text(n).len() >= 1,
    decreases n,
{
    if n >= 10 {
        lemma_nat_text_nonempty(n / 10);
    }
}

/// Appends the decimal digits of `n`.
pub fn push_nat_text(s: &mut String, n: u64)
    ensures
        final(s)@ == old(s)@ + nat_text(n as nat),
    decreases n,
{
    let ghost start = s@;
    if n >= 10 {
        push_nat_text(s, n / 10);
    }
    let d: u32 = (n % 10) as u32;
    let c = char_from_ascii(48 + d);
    push_char(s, c);
    assert(c == digit_char((n % 10) as int));
    if n >= 10 {
        assert(start + nat_text(n as nat) =~= (start + nat_text((n / 10) as nat)).push(c));
    } else {
        assert(start + nat_text(n as nat) =~= start.push(c));
    }
}

/// Appends the decimal text of `n`.
pub fn push_int_text(s: &mut String, n: i64)
    ensures
        final(s)@ == old(s)@ + int_text(n as int),
{
    if n < 0 {
        let ghost start = s@;
        push_char(s, '-');
        let m: u64 = ((-(n + 1)) as u64) + 1;
        assert(m == -n);
        push_nat_text(s, m);
        assert(start + int_text(n as int) =~= start.push('-') + nat_text(m as nat));
    } else {
        push_nat_text(s, n as u64);
    }
}

/// Decimal text of a signed integer (`i64::to_string`).
pub fn int_to_string(n: i64) -> (r: String)
    ensures
        r@ == int_text(n as int),
{
    let mut s = String::new();
    push_int_text(&mut s, n);
    assert(Seq::<char>::empty() + int_text(n as int) =~= int_text(n as int));
    s
}

/// Decimal text of an unsigned integer (`u64::to_string`).
pub fn nat_to_string(n: u64) -> (r: String)
    ensures
        r@ == nat_text(n as nat),
{
    let mut s = String::new();
    push_nat_text(&mut s, n);
    assert(Seq::<char>::empty() + nat_text(n as nat) =~= nat_text(n as nat));
    s
}

} // verus!
