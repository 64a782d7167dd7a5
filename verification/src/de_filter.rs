//! Row handlers that decline rows shorter than one pixel, and the Paeth
//! predictor for callers outside the crate.
use vstd::prelude::*;
use crate::fast;
use crate::model::{
    avg_first_result, avg_result, paeth_predictor, paeth_result, sub_result,
    up_result,
};

verus! {

/// Undoes the Average filter on `current`; a `raw` or `current` shorter than
/// one pixel leaves `current` as it is.
pub fn handle_avg(
    prev_row: &[u8],
    raw: &[u8],
    current: &mut [u8],
    components: usize,
    _use_sse4: bool,
)
    ensures
        final(current)@ == if raw@.len() < components || old(current)@.len() < components {
            old(current)@
        } else {
            avg_result(old(current)@, prev_row@, raw@, components as nat)
        },
{
    if raw.len() < components || current.len() < components {
        return;
    }
    fast::unfilter_avg(prev_row, raw, current, components);
}

/// Undoes the Sub filter on `current`; a `raw` or `current` shorter than
/// one pixel leaves `current` as it is.
pub fn handle_sub(raw: &[u8], current: &mut [u8], components: usize, _use_sse2: bool)
    ensures
        final(current)@ == if raw@.len() < components || old(current)@.len() < components {
            old(current)@
        } else {
            sub_result(old(current)@, raw@, components as nat)
        },
{
    if current.len() < components || raw.len() < components {
        return;
    }
    fast::unfilter_sub(raw, current, components);
}

/// Undoes the Paeth filter on `current`; a `raw` or `current` shorter than
/// one pixel leaves `current` as it is.
pub fn handle_paeth(
    prev_row: &[u8],
    raw: &[u8],
    current: &mut [u8],
    components: usize,
    _use_sse4: bool,
)
    ensures
        final(current)@ == if raw@.len() < components || old(current)@.len() < components {
            old(current)@
        } else {
            paeth_result(old(current)@, prev_row@, raw@, components as nat)
        },
{
    if raw.len() < components || current.len() < components {
        return;
    }
    fast::unfilter_paeth(prev_row, raw, current, components);
}

/// Copies `raw` over `current`, then undoes the Up filter.
pub fn handle_up(prev_row: &[u8], raw: &[u8], current: &mut [u8])
    ensures
        final(current)@ == up_result(old(current)@, prev_row@, raw@),
{
    fast::copy_raw(raw, current);
    fast::unfilter_up(prev_row, current);
}

/// Handle images with the first scanline as paeth scanline
///
/// Special in that the above row is treated as zero
pub fn handle_paeth_first(raw: &[u8], current: &mut [u8], components: usize)
    ensures
        final(current)@ == if raw@.len() < components || old(current)@.len() < components {
            old(current)@
        } else {
            sub_result(old(current)@, raw@, components as nat)
        },
{
    if raw.len() < components || current.len() < components {
        return;
    }
    fast::unfilter_paeth_first(raw, current, components);
}

/// Handle images with the first scanline as an average scanline
///
/// The above row is treated as zero
pub fn handle_avg_first(raw: &[u8], current: &mut [u8], components: usize)
    ensures
        final(current)@ == if raw@.len() < components || old(current)@.len() < components {
            old(current)@
        } else {
            avg_first_result(old(current)@, raw@, components as nat)
        },
{
    if raw.len() < components || current.len() < components {
        return;
    }
    fast::unfilter_avg_first(raw, current, components);
}

/// Paeth predictor - exported for compatibility
pub fn paeth(a: u8, b: u8, c: u8) -> (r: u8)
    ensures
        r == paeth_predictor(a, b, c),
{
    let a = a as i16;
    let b = b as i16;
    let c = c as i16;
    let thresh = c * 3 - (a + b);
    let lo = if a < b { a } else { b };
    let hi = if a < b { b } else { a };
    let t0 = if hi <= thresh { lo } else { c };
    let t1 = if thresh <= lo { hi } else { t0 };
    t1 as u8
}

} // verus!
