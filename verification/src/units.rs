//! Millimeter-to-pixel conversion.
//!
//! Physical lengths are carried as integer tenths of a millimeter, so that
//! sub-millimeter settings (a 0.5 mm gap) stay exact. A length of `L` tenths
//! of a millimeter at `dpi` dots per inch covers `L / 10 / 25.4 * dpi`
//! pixels; the conversion rounds this to the nearest whole pixel, ties away
//! from zero.

use vstd::prelude::*;

verus! {

/// The number of pixels that `mm10` tenths of a millimeter cover at `dpi`
/// dots per inch: `round(mm10 * dpi / 254)`, ties rounding up.
///
/// `(mm10 / 10) / 25.4 * dpi == mm10 * dpi / 254` exactly, so this is the
/// usual `round(mm / 25.4 * dpi)` without leaving the integers.
pub open spec fn px_of(mm10: int, dpi: int) -> int {
    (2 * (mm10 * dpi) + 254) / 508
}

/// `px_of(mm10, dpi)` is the integer nearest to `mm10 * dpi / 254`; a value
/// exactly halfway between two integers rounds up (away from zero, as both
/// factors are non-negative).
///
/// The two bounds say `-254 <= 2 * mm10 * dpi - 508 * px_of(mm10, dpi) < 254`,
/// i.e. `px_of` differs from the exact quotient `mm10 * dpi / 254` by at most
/// one half, reaching `-1/2` (the tie, rounded up) but never `+1/2`.
pub proof fn lemma_px_of_rounds(mm10: int, dpi: int)
    requires
        mm10 >= 0,
        dpi >= 0,
    ensures
        508 * px_of(mm10, dpi) <= 2 * (mm10 * dpi) + 254,
        2 * (mm10 * dpi) + 254 < 508 * px_of(mm10, dpi) + 508,
{
    let n: int = 2 * (mm10 * dpi) + 254;
    vstd::arithmetic::div_mod::lemma_fundamental_div_mod(n, 508);
    vstd::arithmetic::div_mod::lemma_mod_division_less_than_divisor(n, 508);
}

/// Converts a length in tenths of a millimeter to whole pixels at the given
/// resolution, rounding to the nearest pixel (ties away from zero).
pub fn convert_mm_to_px(length_mm10: u32, dpi: u32) -> (px: u32)
    requires
        px_of(length_mm10 as int, dpi as int) <= u32::MAX,
    ensures
        px as int == px_of(length_mm10 as int, dpi as int),
{
    let a: u128 = length_mm10 as u128;
    let b: u128 = dpi as u128;
    proof {
        assert(a * b <= 0xFFFF_FFFF * 0xFFFF_FFFFu128) by (nonlinear_arith)
            requires
                a <= 0xFFFF_FFFFu128,
                b <= 0xFFFF_FFFFu128;
    }
    let n: u128 = 2 * (a * b) + 254;
    let q: u128 = n / 508;
    assert(q == px_of(length_mm10 as int, dpi as int));
    q as u32
}

/// Converts as [`convert_mm_to_px`] does, but reports a length whose pixel
/// count does not fit the pixel type instead of demanding it of the caller.
pub fn try_convert_mm_to_px(length_mm10: u32, dpi: u32) -> (r: Option<u32>)
    ensures
        r is Some <==> px_of(length_mm10 as int, dpi as int) <= u32::MAX,
        r is Some ==> r.unwrap() as int == px_of(length_mm10 as int, dpi as int),
{
    let a: u128 = length_mm10 as u128;
    let b: u128 = dpi as u128;
    proof {
        assert(a * b <= 0xFFFF_FFFF * 0xFFFF_FFFFu128) by (nonlinear_arith)
            requires
                a <= 0xFFFF_FFFFu128,
                b <= 0xFFFF_FFFFu128;
    }
    let n: u128 = 2 * (a * b) + 254;
    let q: u128 = n / 508;
    assert(q == px_of(length_mm10 as int, dpi as int));
    if q <= u32::MAX as u128 {
        Some(q as u32)
    } else {
        None
    }
}

} // verus!
