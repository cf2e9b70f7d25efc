//! Candidate names for the output file.
//!
//! The engine never touches a file system. A host that wants a
//! non-colliding output path probes the names this module defines, in
//! order — `output.png` first, then `output(1).png`, `output(2).png`, and
//! so on without an upper bound — and keeps the first name that is free.

use vstd::prelude::*;
use vstd::string::*;

verus! {

/// The decimal digit character for `d`.
pub open spec fn spec_digit_char(d: int) -> char {
    if d == 0 {
        '0'
    } else if d == 1 {
        '1'
    } else if d == 2 {
        '2'
    } else if d == 3 {
        '3'
    } else if d == 4 {
        '4'
    } else if d == 5 {
        '5'
    } else if d == 6 {
        '6'
    } else if d == 7 {
        '7'
    } else if d == 8 {
        '8'
    } else {
        '9'
    }
}

/// The decimal numeral for `n`, most significant digit first, with no
/// leading zeros (a single `0` for zero itself).
pub open spec fn spec_decimal(n: int) -> Seq<char>
    decreases n,
{
    if n < 10 {
        seq![spec_digit_char(n)]
    } else {
        spec_decimal(n / 10).push(spec_digit_char(n % 10))
    }
}

/// The `k`-th candidate output name: `output.png` for the first try, then
/// `output(k).png` with the probe counter `k` written in decimal.
pub open spec fn spec_candidate_name(k: int) -> Seq<char> {
    if k == 0 {
        "output.png"@
    } else {
        "output("@ + spec_decimal(k) + ").png"@
    }
}

/// The one-character string for digit `d`.
fn digit_str(d: u32) -> (r: &'static str)
    requires
        d < 10,
    ensures
        r@ =~= seq![spec_digit_char(d as int)],
{
    proof {
        reveal_strlit("0");
        reveal_strlit("1");
        reveal_strlit("2");
        reveal_strlit("3");
        reveal_strlit("4");
        reveal_strlit("5");
        reveal_strlit("6");
        reveal_strlit("7");
        reveal_strlit("8");
        reveal_strlit("9");
    }
    match d {
        0 => "0",
        1 => "1",
        2 => "2",
        3 => "3",
        4 => "4",
        5 => "5",
        6 => "6",
        7 => "7",
        8 => "8",
        _ => "9",
    }
}

/// Appends the decimal numeral of `n` to `s`, most significant digit
/// first.
fn push_decimal(s: &mut String, n: u32)
    ensures
        final(s)@ == old(s)@ + spec_decimal(n as int),
    decreases n,
{
    if n < 10 {
        s.append(digit_str(n));
        proof {
            assert(s@ =~= old(s)@ + spec_decimal(n as int));
        }
    } else {
        proof {
            vstd::arithmetic::div_mod::lemma_div_is_strictly_smaller(n as int, 10);
        }
        push_decimal(s, n / 10);
        s.append(digit_str(n % 10));
        proof {
            assert(s@ =~= old(s)@ + spec_decimal(n as int));
        }
    }
}

/// The `k`-th candidate output name, for a host's unique-name probe:
/// `output.png`, then `output(1).png`, `output(2).png`, and so on. The
/// host tries `k = 0, 1, 2, ...` in turn and keeps the first name with no
/// existing file, so the first free name wins.
pub fn candidate_name(k: u32) -> (r: String)
    ensures
        r@ == spec_candidate_name(k as int),
{
    if k == 0 {
        String::from_str("output.png")
    } else {
        let mut s = String::from_str("output(");
        push_decimal(&mut s, k);
        s.append(").png");
        proof {
            assert(s@ =~= "output("@ + spec_decimal(k as int) + ").png"@);
        }
        s
    }
}

} // verus!
