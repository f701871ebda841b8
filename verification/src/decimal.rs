//! Decimal rendering of integers.
//!
//! The schema navigator renders dynamic-array element indices as decimal
//! strings, and the value renderer prints integer field values the same
//! way. `dec_rep` is the mathematical form of that rendering; the exec
//! functions here produce exactly it.

use vstd::prelude::*;

verus! {

/// The character for one decimal digit.
pub open spec fn digit_char(d: nat) -> char {
    if d == 0 {
        '0'
    } else if d == 1 {
        '1'
    } else if d == 2 {
        '2'
    } else if d == 3 {
        '3'
    } else if d == 4 {
        '4'
    } else if d == 5 {
        '5'
    } else if d == 6 {
        '6'
    } else if d == 7 {
        '7'
    } else if d == 8 {
        '8'
    } else {
        '9'
    }
}

/// The decimal rendering of a non-negative integer: most significant digit
/// first, no leading zeros (except for zero itself, rendered "0").
pub open spec fn dec_rep(n: nat) -> Seq<char>
    decreases n,
{
    if n < 10 {
        seq![digit_char(n)]
    } else {
        dec_rep(n / 10).push(digit_char(n % 10))
    }
}

/// The decimal rendering of a signed integer: a leading minus sign for
/// negative values, then the magnitude's digits.
pub open spec fn dec_rep_signed(n: int) -> Seq<char> {
    if n >= 0 {
        dec_rep(n as nat)
    } else {
        seq!['-'] + dec_rep((-n) as nat)
    }
}

/// The digits of `ds` (least significant first) rendered in display order:
/// last digit of `ds` first.
pub open spec fn digits_rev(ds: Seq<u8>) -> Seq<char>
    decreases ds.len(),
{
    if ds.len() == 0 {
        Seq::empty()
    } else {
        digits_rev(ds.drop_first()) + seq![digit_char(ds[0] as nat)]
    }
}

proof fn lemma_digits_rev_push(ds: Seq<u8>, d: u8)
    ensures
        digits_rev(ds.push(d)) == seq![digit_char(d as nat)] + digits_rev(ds),
    decreases ds.len(),
{
    if ds.len() == 0 {
        assert(ds.push(d).drop_first() =~= ds);
        assert(digits_rev(ds.push(d)) =~= seq![digit_char(d as nat)] + digits_rev(ds));
    } else {
        assert(ds.push(d).drop_first() =~= ds.drop_first().push(d));
        lemma_digits_rev_push(ds.drop_first(), d);
        assert(digits_rev(ds.push(d)) =~= seq![digit_char(d as nat)] + digits_rev(ds));
    }
}

/// Appends the character of one digit to `s`.
fn push_digit(s: &mut String, d: u8)
    requires
        d < 10,
    ensures
        final(s)@ == old(s)@.push(digit_char(d as nat)),
{
    proof {
        reveal_strlit("0");
        reveal_strlit("1");
        reveal_strlit("2");
        reveal_strlit("3");
        reveal_strlit("4");
        reveal_strlit("5");
        reveal_strlit("6");
        reveal_strlit("7");
        reveal_strlit("8");
        reveal_strlit("9");
    }
    match d {
        0 => s.append("0"),
        1 => s.append("1"),
        2 => s.append("2"),
        3 => s.append("3"),
        4 => s.append("4"),
        5 => s.append("5"),
        6 => s.append("6"),
        7 => s.append("7"),
        8 => s.append("8"),
        _ => s.append("9"),
    }
    proof {
        assert(s@ =~= old(s)@.push(digit_char(d as nat)));
    }
}

/// Renders `n` in decimal, most significant digit first.
pub fn u64_to_decimal(n: u64) -> (s: String)
    ensures
        s@ == dec_rep(n as nat),
{
    let mut digits: Vec<u8> = Vec::new();
    let mut m: u64 = n;
    loop
        invariant_except_break
            forall|k: int| 0 <= k < digits@.len() ==> digits@[k] < 10,
            digits@.len() == 0 ==> m == n,
            digits@.len() >= 1 ==> m > 0 && dec_rep(n as nat) == dec_rep(m as nat) + digits_rev(
                digits@,
            ),
        ensures
            forall|k: int| 0 <= k < digits@.len() ==> digits@[k] < 10,
            dec_rep(n as nat) == digits_rev(digits@),
        decreases m,
    {
        let ghost old_digits = digits@;
        let ghost old_m = m;
        let d: u8 = (m % 10) as u8;
        digits.push(d);
        m = m / 10;
        proof {
            lemma_digits_rev_push(old_digits, d);
            if old_m >= 10 {
                assert(dec_rep(old_m as nat) == dec_rep((old_m as nat) / 10).push(
                    digit_char((old_m as nat) % 10)));
                assert(dec_rep(n as nat) =~= dec_rep(m as nat) + digits_rev(digits@));
            } else {
                assert(dec_rep(old_m as nat) =~= seq![digit_char(old_m as nat)]);
                assert(dec_rep(n as nat) =~= digits_rev(digits@));
            }
        }
        if m == 0 {
            break;
        }
    }
    let mut s = String::new();
    let mut i: usize = digits.len();
    while i > 0
        invariant
            i <= digits@.len(),
            forall|k: int| 0 <= k < digits@.len() ==> digits@[k] < 10,
            s@ == digits_rev(digits@.skip(i as int)),
            dec_rep(n as nat) == digits_rev(digits@),
        decreases i,
    {
        i = i - 1;
        push_digit(&mut s, digits[i]);
        proof {
            assert(digits@.skip(i as int).drop_first() =~= digits@.skip(i as int + 1));
            assert(s@ =~= digits_rev(digits@.skip(i as int)));
        }
    }
    proof {
        assert(digits@.skip(0) =~= digits@);
    }
    s
}

/// Renders one field-path segment in decimal.
pub fn u8_to_decimal(n: u8) -> (s: String)
    ensures
        s@ == dec_rep(n as nat),
{
    u64_to_decimal(n as u64)
}

/// Renders `n` in decimal, with a leading minus sign when negative.
pub fn i64_to_decimal(n: i64) -> (s: String)
    ensures
        s@ == dec_rep_signed(n as int),
{
    if n >= 0 {
        u64_to_decimal(n as u64)
    } else {
        proof {
            reveal_strlit("-");
        }
        let mut s = String::new();
        s.append("-");
        let magnitude: u64 = (0i128 - (n as i128)) as u64;
        let rest = u64_to_decimal(magnitude);
        s.append(rest.as_str());
        proof {
            assert(s@ =~= dec_rep_signed(n as int));
        }
        s
    }
}

} // verus!
