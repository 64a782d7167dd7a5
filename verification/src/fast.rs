//! Scanline reconstruction for the Sub, Up, Average and Paeth filters.
use vstd::prelude::*;
use crate::model::{
    avg_first_recon, avg_first_result, avg_first_row, avg_recon, avg_result, avg_row, mean_floor,
    min_int, paeth_predictor, paeth_recon, paeth_result, paeth_row, sub_recon,
    sub_result, sub_row, up_row, with_raw, pixel_limit,
};

verus! {

/// Paeth predictor in the branch-free formulation used by stb_image; it
/// agrees with the definition of the PNG specification on every input.
pub fn paeth_predict(a: u8, b: u8, c: u8) -> (r: u8)
    ensures
        r == paeth_predictor(a, b, c),
{
    let a = a as i16;
    let b = b as i16;
    let c = c as i16;
    let thresh = c * 3 - (a + b);
    let lo = if a < b { a } else { b };
    let hi = if a < b { b } else { a };
    let t0 = if hi <= thresh { lo } else { c };
    let t1 = if thresh <= lo { hi } else { t0 };
    t1 as u8
}

/// Mean of two bytes rounded down, computed without overflow.
fn avg(a: u8, b: u8) -> (r: u8)
    ensures
        r == mean_floor(a, b),
        2 * r <= a + b <= 2 * r + 1,
{
    proof {
        assert((a & b) + ((a ^ b) >> 1u8) == (a + b) / 2) by (bit_vector);
        assert((a & b) + ((a ^ b) >> 1u8) <= 255) by (bit_vector);
    }
    (a & b) + ((a ^ b) >> 1)
}


/// Undoes the Sub filter on the first `limit` bytes of `current`: each byte
/// from position `bpp` on adds the reconstructed byte `bpp` to its left.
fn sub_reconstruct(current: &mut [u8], bpp: usize, limit: usize)
    requires
        limit <= old(current)@.len(),
    ensures
        final(current)@ == sub_row(old(current)@, bpp as nat, limit as int),
{
    let ghost old_row = current@;
    let mut i: usize = bpp;
    while i < limit
        invariant
            limit <= old_row.len(),
            current@.len() == old_row.len(),
            i == bpp || i <= limit,
            bpp <= i,
            forall|j: int|
                0 <= j < old_row.len() ==> #[trigger] current@[j] == (if j < i {
                    sub_recon(old_row, bpp as nat, j)
                } else {
                    old_row[j]
                }),
        decreases limit - i,
    {
        let left = current[i - bpp];
        current[i] = current[i].wrapping_add(left);
        i = i + 1;
    }
    assert(current@ =~= sub_row(old_row, bpp as nat, limit as int));
}


/// Undoes the Average filter on the first `limit` bytes of `current`, with
/// `previous` the reconstructed row above.
fn avg_reconstruct(previous: &[u8], current: &mut [u8], bpp: usize, limit: usize)
    requires
        limit <= old(current)@.len(),
        limit <= previous@.len(),
    ensures
        final(current)@ == avg_row(old(current)@, previous@, bpp as nat, limit as int),
{
    let ghost old_row = current@;
    let mut i: usize = 0;
    while i < limit
        invariant
            limit <= old_row.len(),
            limit <= previous@.len(),
            current@.len() == old_row.len(),
            i <= limit,
            forall|j: int|
                0 <= j < old_row.len() ==> #[trigger] current@[j] == (if j < i {
                    avg_recon(old_row, previous@, bpp as nat, j)
                } else {
                    old_row[j]
                }),
        decreases limit - i,
    {
        let up = previous[i];
        if i < bpp {
            assert(up >> 1u8 == up / 2) by (bit_vector);
            current[i] = current[i].wrapping_add(up >> 1);
        } else {
            let left = current[i - bpp];
            current[i] = current[i].wrapping_add(avg(left, up));
        }
        i = i + 1;
    }
    assert(current@ =~= avg_row(old_row, previous@, bpp as nat, limit as int));
}

/// Undoes the Paeth filter on the first `limit` bytes of `current`, with
/// `previous` the reconstructed row above.
fn paeth_reconstruct(previous: &[u8], current: &mut [u8], bpp: usize, limit: usize)
    requires
        limit <= old(current)@.len(),
        limit <= previous@.len(),
    ensures
        final(current)@ == paeth_row(old(current)@, previous@, bpp as nat, limit as int),
{
    let ghost old_row = current@;
    let mut i: usize = 0;
    while i < limit
        invariant
            limit <= old_row.len(),
            limit <= previous@.len(),
            current@.len() == old_row.len(),
            i <= limit,
            forall|j: int|
                0 <= j < old_row.len() ==> #[trigger] current@[j] == (if j < i {
                    paeth_recon(old_row, previous@, bpp as nat, j)
                } else {
                    old_row[j]
                }),
        decreases limit - i,
    {
        if i < bpp {
            current[i] = current[i].wrapping_add(previous[i]);
        } else {
            let a = current[i - bpp];
            let b = previous[i];
            let c = previous[i - bpp];
            current[i] = current[i].wrapping_add(paeth_predict(a, b, c));
        }
        i = i + 1;
    }
    assert(current@ =~= paeth_row(old_row, previous@, bpp as nat, limit as int));
}

/// Copies `raw` over the start of `current`, as far as both reach.
pub(crate) fn copy_raw(raw: &[u8], current: &mut [u8])
    ensures
        final(current)@ == with_raw(old(current)@, raw@),
{
    let ghost old_row = current@;
    let len = if raw.len() < current.len() { raw.len() } else { current.len() };
    let mut i: usize = 0;
    while i < len
        invariant
            len <= raw@.len(),
            len <= old_row.len(),
            len == raw@.len() || len == old_row.len(),
            current@.len() == old_row.len(),
            i <= len,
            forall|j: int|
                0 <= j < old_row.len() ==> #[trigger] current@[j] == (if j < i {
                    raw@[j]
                } else {
                    old_row[j]
                }),
        decreases len - i,
    {
        current[i] = raw[i];
        i = i + 1;
    }
    assert(current@ =~= with_raw(old_row, raw@));
}

// ============================================================================
// SUB FILTER
// ============================================================================

/// Sub filter for one byte per pixel: every byte adds the reconstructed byte
/// to its left.
pub fn unfilter_sub_1bpp(current: &mut [u8])
    ensures
        final(current)@ == sub_row(old(current)@, 1, old(current)@.len() as int),
{
    let len = current.len();
    sub_reconstruct(current, 1, len);
}

/// Sub filter for two bytes per pixel: every byte from the
/// second pixel on adds the reconstructed byte one pixel to its left.
pub fn unfilter_sub_2bpp(current: &mut [u8])
    ensures
        final(current)@ == sub_row(old(current)@, 2, old(current)@.len() as int),
{
    let len = current.len();
    sub_reconstruct(current, 2, len);
}

/// Sub filter for three bytes per pixel: every byte from the
/// second pixel on adds the reconstructed byte one pixel to its left.
pub fn unfilter_sub_3bpp(current: &mut [u8])
    ensures
        final(current)@ == sub_row(old(current)@, 3, old(current)@.len() as int),
{
    let len = current.len();
    sub_reconstruct(current, 3, len);
}

/// Sub filter for four bytes per pixel: every byte from the
/// second pixel on adds the reconstructed byte one pixel to its left.
pub fn unfilter_sub_4bpp(current: &mut [u8])
    ensures
        final(current)@ == sub_row(old(current)@, 4, old(current)@.len() as int),
{
    let len = current.len();
    sub_reconstruct(current, 4, len);
}

/// Sub filter for six bytes per pixel: every byte from the
/// second pixel on adds the reconstructed byte one pixel to its left.
pub fn unfilter_sub_6bpp(current: &mut [u8])
    ensures
        final(current)@ == sub_row(old(current)@, 6, old(current)@.len() as int),
{
    let len = current.len();
    sub_reconstruct(current, 6, len);
}

/// Sub filter for eight bytes per pixel: every byte from the
/// second pixel on adds the reconstructed byte one pixel to its left.
pub fn unfilter_sub_8bpp(current: &mut [u8])
    ensures
        final(current)@ == sub_row(old(current)@, 8, old(current)@.len() as int),
{
    let len = current.len();
    sub_reconstruct(current, 8, len);
}

/// Generic sub filter for any bpp: copies `raw` over `current` first, then
/// undoes the filter on the whole row.
pub fn unfilter_sub(raw: &[u8], current: &mut [u8], bpp: usize)
    ensures
        final(current)@ == sub_result(old(current)@, raw@, bpp as nat),
{
    copy_raw(raw, current);
    match bpp {
        1 => unfilter_sub_1bpp(current),
        2 => unfilter_sub_2bpp(current),
        3 => unfilter_sub_3bpp(current),
        4 => unfilter_sub_4bpp(current),
        6 => unfilter_sub_6bpp(current),
        8 => unfilter_sub_8bpp(current),
        _ => unfilter_sub_generic(current, bpp),
    }
}

/// Sub filter for any pixel width, over the whole row.
fn unfilter_sub_generic(current: &mut [u8], bpp: usize)
    ensures
        final(current)@ == sub_row(old(current)@, bpp as nat, old(current)@.len() as int),
{
    let len = current.len();
    sub_reconstruct(current, bpp, len);
}

// ============================================================================
// UP FILTER
// ============================================================================

/// Up filter: every byte adds the byte above it, as far as both rows reach.
pub fn unfilter_up(previous: &[u8], current: &mut [u8])
    ensures
        final(current)@ == up_row(
            old(current)@,
            previous@,
            min_int(previous@.len() as int, old(current)@.len() as int),
        ),
{
    let ghost old_row = current@;
    let len = if previous.len() < current.len() { previous.len() } else { current.len() };
    let mut i: usize = 0;
    while i < len
        invariant
            len <= previous@.len(),
            len <= old_row.len(),
            len == min_int(previous@.len() as int, old_row.len() as int),
            current@.len() == old_row.len(),
            i <= len,
            forall|j: int|
                0 <= j < old_row.len() ==> #[trigger] current@[j] == (if j < i {
                    vstd::wrapping::u8_specs::wrapping_add(old_row[j], previous@[j])
                } else {
                    old_row[j]
                }),
        decreases len - i,
    {
        current[i] = current[i].wrapping_add(previous[i]);
        i = i + 1;
    }
    assert(current@ =~= up_row(old_row, previous@, len as int));
}


// ============================================================================
// AVG FILTER
// ============================================================================

/// Average filter for 3 bytes per pixel, over the bytes that this row
/// and the row above share; a row shorter than one
/// pixel is left as it is.
pub fn unfilter_avg_3bpp(previous: &[u8], current: &mut [u8])
    ensures
        final(current)@ == avg_row(
            old(current)@,
            previous@,
            3,
            pixel_limit(3, min_int(previous@.len() as int, old(current)@.len() as int)),
        ),
{
    let len = if previous.len() < current.len() { previous.len() } else { current.len() };
    if len < 3 {
        assert(current@ =~= avg_row(current@, previous@, 3, 0));
        return;
    }
    avg_reconstruct(previous, current, 3, len);
}

/// Average filter for 4 bytes per pixel, over the bytes that this row
/// and the row above share; a row shorter than one
/// pixel is left as it is.
pub fn unfilter_avg_4bpp(previous: &[u8], current: &mut [u8])
    ensures
        final(current)@ == avg_row(
            old(current)@,
            previous@,
            4,
            pixel_limit(4, min_int(previous@.len() as int, old(current)@.len() as int)),
        ),
{
    let len = if previous.len() < current.len() { previous.len() } else { current.len() };
    if len < 4 {
        assert(current@ =~= avg_row(current@, previous@, 4, 0));
        return;
    }
    avg_reconstruct(previous, current, 4, len);
}

/// Average filter for 6 bytes per pixel, over the bytes that this row
/// and the row above share; a row shorter than one
/// pixel is left as it is.
pub fn unfilter_avg_6bpp(previous: &[u8], current: &mut [u8])
    ensures
        final(current)@ == avg_row(
            old(current)@,
            previous@,
            6,
            pixel_limit(6, min_int(previous@.len() as int, old(current)@.len() as int)),
        ),
{
    let len = if previous.len() < current.len() { previous.len() } else { current.len() };
    if len < 6 {
        assert(current@ =~= avg_row(current@, previous@, 6, 0));
        return;
    }
    avg_reconstruct(previous, current, 6, len);
}

/// Average filter for 8 bytes per pixel, over the bytes that this row
/// and the row above share; a row shorter than one
/// pixel is left as it is.
pub fn unfilter_avg_8bpp(previous: &[u8], current: &mut [u8])
    ensures
        final(current)@ == avg_row(
            old(current)@,
            previous@,
            8,
            pixel_limit(8, min_int(previous@.len() as int, old(current)@.len() as int)),
        ),
{
    let len = if previous.len() < current.len() { previous.len() } else { current.len() };
    if len < 8 {
        assert(current@ =~= avg_row(current@, previous@, 8, 0));
        return;
    }
    avg_reconstruct(previous, current, 8, len);
}

/// Generic avg filter dispatcher: copies `raw` over `current` first, then
/// undoes the filter on the bytes that this row and the row above share.
pub fn unfilter_avg(previous: &[u8], raw: &[u8], current: &mut [u8], bpp: usize)
    ensures
        final(current)@ == avg_result(old(current)@, previous@, raw@, bpp as nat),
{
    copy_raw(raw, current);
    match bpp {
        3 => unfilter_avg_3bpp(previous, current),
        4 => unfilter_avg_4bpp(previous, current),
        6 => unfilter_avg_6bpp(previous, current),
        8 => unfilter_avg_8bpp(previous, current),
        _ => unfilter_avg_generic(previous, current, bpp),
    }
}

/// Average filter for any pixel width, over the bytes that this row and the
/// row above share.
fn unfilter_avg_generic(previous: &[u8], current: &mut [u8], bpp: usize)
    ensures
        final(current)@ == avg_row(
            old(current)@,
            previous@,
            bpp as nat,
            min_int(previous@.len() as int, old(current)@.len() as int),
        ),
{
    let len = if previous.len() < current.len() { previous.len() } else { current.len() };
    avg_reconstruct(previous, current, bpp, len);
}

// ============================================================================
// PAETH FILTER
// ============================================================================

/// Paeth filter for 3 bytes per pixel, over the bytes that this row and
/// the row above share; a row shorter than one pixel is left as it is.
pub fn unfilter_paeth_3bpp(previous: &[u8], current: &mut [u8])
    ensures
        final(current)@ == paeth_row(
            old(current)@,
            previous@,
            3,
            pixel_limit(3, min_int(previous@.len() as int, old(current)@.len() as int)),
        ),
{
    let len = if previous.len() < current.len() { previous.len() } else { current.len() };
    if len < 3 {
        assert(current@ =~= paeth_row(current@, previous@, 3, 0));
        return;
    }
    paeth_reconstruct(previous, current, 3, len);
}

/// Paeth filter for 4 bytes per pixel, over the bytes that this row and
/// the row above share; a row shorter than one pixel is left as it is.
pub fn unfilter_paeth_4bpp(previous: &[u8], current: &mut [u8])
    ensures
        final(current)@ == paeth_row(
            old(current)@,
            previous@,
            4,
            pixel_limit(4, min_int(previous@.len() as int, old(current)@.len() as int)),
        ),
{
    let len = if previous.len() < current.len() { previous.len() } else { current.len() };
    if len < 4 {
        assert(current@ =~= paeth_row(current@, previous@, 4, 0));
        return;
    }
    paeth_reconstruct(previous, current, 4, len);
}

/// Paeth filter for 6 bytes per pixel, over the bytes that this row and
/// the row above share; a row shorter than one pixel is left as it is.
pub fn unfilter_paeth_6bpp(previous: &[u8], current: &mut [u8])
    ensures
        final(current)@ == paeth_row(
            old(current)@,
            previous@,
            6,
            pixel_limit(6, min_int(previous@.len() as int, old(current)@.len() as int)),
        ),
{
    let len = if previous.len() < current.len() { previous.len() } else { current.len() };
    if len < 6 {
        assert(current@ =~= paeth_row(current@, previous@, 6, 0));
        return;
    }
    paeth_reconstruct(previous, current, 6, len);
}

/// Paeth filter for 8 bytes per pixel, over the bytes that this row and
/// the row above share; a row shorter than one pixel is left as it is.
pub fn unfilter_paeth_8bpp(previous: &[u8], current: &mut [u8])
    ensures
        final(current)@ == paeth_row(
            old(current)@,
            previous@,
            8,
            pixel_limit(8, min_int(previous@.len() as int, old(current)@.len() as int)),
        ),
{
    let len = if previous.len() < current.len() { previous.len() } else { current.len() };
    if len < 8 {
        assert(current@ =~= paeth_row(current@, previous@, 8, 0));
        return;
    }
    paeth_reconstruct(previous, current, 8, len);
}

/// Generic paeth filter dispatcher: copies `raw` over `current` first, then
/// undoes the filter.
pub fn unfilter_paeth(previous: &[u8], raw: &[u8], current: &mut [u8], bpp: usize)
    ensures
        final(current)@ == paeth_result(old(current)@, previous@, raw@, bpp as nat),
{
    copy_raw(raw, current);
    match bpp {
        3 => unfilter_paeth_3bpp(previous, current),
        4 => unfilter_paeth_4bpp(previous, current),
        6 => unfilter_paeth_6bpp(previous, current),
        8 => unfilter_paeth_8bpp(previous, current),
        _ => unfilter_paeth_generic(previous, current, bpp),
    }
}

/// Paeth filter for any pixel width, over the bytes that this row and the
/// row above share.
fn unfilter_paeth_generic(previous: &[u8], current: &mut [u8], bpp: usize)
    ensures
        final(current)@ == paeth_row(
            old(current)@,
            previous@,
            bpp as nat,
            min_int(previous@.len() as int, old(current)@.len() as int),
        ),
{
    let len = if previous.len() < current.len() { previous.len() } else { current.len() };
    paeth_reconstruct(previous, current, bpp, len);
}

// ============================================================================
// FIRST ROW VARIANTS (no previous row)
// ============================================================================

/// Avg filter for first row (previous row is all zeros): copies `raw` over
/// `current`, then every byte from position `bpp` on, up to the end of
/// `raw`, adds half of the reconstructed byte `bpp` to its left.
pub fn unfilter_avg_first(raw: &[u8], current: &mut [u8], bpp: usize)
    ensures
        final(current)@ == avg_first_result(old(current)@, raw@, bpp as nat),
{
    let len = if raw.len() < current.len() { raw.len() } else { current.len() };
    copy_raw(raw, current);
    let ghost copied = current@;
    let mut i: usize = bpp;
    while i < len
        invariant
            len <= copied.len(),
            len == min_int(raw@.len() as int, copied.len() as int),
            current@.len() == copied.len(),
            i == bpp || i <= len,
            bpp <= i,
            forall|j: int|
                0 <= j < copied.len() ==> #[trigger] current@[j] == (if j < i {
                    avg_first_recon(copied, bpp as nat, j)
                } else {
                    copied[j]
                }),
        decreases len - i,
    {
        let left = current[i - bpp];
        assert(left >> 1u8 == left / 2) by (bit_vector);
        current[i] = current[i].wrapping_add(left >> 1);
        i = i + 1;
    }
    assert(current@ =~= avg_first_row(copied, bpp as nat, len as int));
}

/// Paeth filter for first row (previous row is all zeros) - equivalent to Sub
pub fn unfilter_paeth_first(raw: &[u8], current: &mut [u8], bpp: usize)
    ensures
        final(current)@ == sub_result(old(current)@, raw@, bpp as nat),
{
    // When previous row is all zeros, paeth(a, 0, 0) = a
    unfilter_sub(raw, current, bpp);
}

} // verus!
