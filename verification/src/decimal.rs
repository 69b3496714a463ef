//! Integers in decimal notation.

use vstd::prelude::*;
use crate::text::string_of;

verus! {

/// The character of the decimal digit `d`.
pub open spec fn digit(d: nat) -> char
    recommends
        d < 10,
{
    if d == 0 {
        '0'
    } else if d == 1 {
        '1'
    } else if d == 2 {
        '2'
    } else if d == 3 {
        '3'
    } else if d == 4 {
        '4'
    } else if d == 5 {
        '5'
    } else if d == 6 {
        '6'
    } else if d == 7 {
        '7'
    } else if d == 8 {
        '8'
    } else {
        '9'
    }
}

/// The decimal digits of `n`, the most significant first, without
/// leading zeros; `0` has the one digit `0`.
pub open spec fn digits(n: nat) -> Seq<char>
    decreases n,
{
    if n < 10 {
        seq![digit(n)]
    } else {
        digits(n / 10).push(digit(n % 10))
    }
}

/// `v` in decimal notation: its digits, after a `-` where `v` is
/// negative.
pub open spec fn decimal(v: int) -> Seq<char> {
    if v < 0 {
        seq!['-'] + digits((-v) as nat)
    } else {
        digits(v as nat)
    }
}

fn digit_char(d: u64) -> (c: char)
    requires
        d < 10,
    ensures
        c == digit(d as nat),
{
    if d == 0 {
        '0'
    } else if d == 1 {
        '1'
    } else if d == 2 {
        '2'
    } else if d == 3 {
        '3'
    } else if d == 4 {
        '4'
    } else if d == 5 {
        '5'
    } else if d == 6 {
        '6'
    } else if d == 7 {
        '7'
    } else if d == 8 {
        '8'
    } else {
        '9'
    }
}

/// `v` in decimal notation.
pub fn decimal_string(v: i64) -> (s: String)
    ensures
        s@ == decimal(v as int),
{
    let magnitude: u64 = if v < 0 {
        (-(v + 1)) as u64 + 1
    } else {
        v as u64
    };
    // The digits, the least significant first.
    let mut low_first: Vec<char> = Vec::new();
    low_first.push(digit_char(magnitude % 10));
    let mut rest: u64 = magnitude / 10;
    while rest > 0
        invariant
            low_first.len() > 0,
            digits(magnitude as nat) == (if rest > 0 {
                digits(rest as nat)
            } else {
                Seq::<char>::empty()
            }) + low_first@.reverse(),
        decreases rest,
    {
        let ghost before = low_first@;
        low_first.push(digit_char(rest % 10));
        proof {
            let d = digit((rest % 10) as nat);
            assert(low_first@.reverse() =~= seq![d] + before.reverse());
            let higher = if rest / 10 > 0 {
                digits((rest / 10) as nat)
            } else {
                Seq::<char>::empty()
            };
            assert(digits(rest as nat) =~= higher.push(d));
            assert(higher.push(d) + before.reverse() =~= higher + (seq![d] + before.reverse()));
        }
        rest = rest / 10;
    }
    let mut text: Vec<char> = Vec::new();
    if v < 0 {
        text.push('-');
    }
    let ghost sign = text@;
    let mut i: usize = low_first.len();
    while i > 0
        invariant
            i <= low_first.len(),
            text@ == sign + low_first@.reverse().take(low_first.len() - i),
        decreases i,
    {
        i -= 1;
        text.push(low_first[i]);
        assert(text@ =~= sign + low_first@.reverse().take(low_first.len() - i));
    }
    assert(low_first@.reverse().take(low_first.len() as int) =~= low_first@.reverse());
    assert(Seq::<char>::empty() + low_first@.reverse() =~= low_first@.reverse());
    string_of(text.as_slice())
}

} // verus!
