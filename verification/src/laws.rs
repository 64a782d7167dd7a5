//! Properties of scanline reconstruction that span several functions.
use vstd::prelude::*;
use crate::model::{
    all_zero, avg_filter, avg_first_recon, avg_first_result, avg_paeth_have_fast_path,
    avg_recon, avg_result, avg_row, byte_add, byte_sub, mean_floor, min_int, paeth_filter,
    paeth_predictor, paeth_recon, paeth_result, paeth_row, sub_filter, sub_recon, sub_result,
    up_filter, up_result, with_raw, avg_first_filter, shorter_than_pixel, abs_int,
};

verus! {

/// Byte addition is addition modulo 256, and adding back what was
/// subtracted modulo 256 gives the byte back.
pub proof fn lemma_byte_add_sub(x: u8, y: u8)
    ensures
        byte_add(x, y) as int == (x + y) % 256,
        byte_add(((x - y) % 256) as u8, y) == x,
        byte_add(byte_sub(x, y), y) == x,
{
}

/// The Paeth predictor always picks one of its three neighbours; with the
/// left and upper-left neighbours zero it picks the upper one, and with the
/// upper and upper-left neighbours zero it picks the left one.
pub proof fn lemma_paeth_predictor_choices(a: u8, b: u8, c: u8)
    ensures
        paeth_predictor(a, b, c) == a || paeth_predictor(a, b, c) == b
            || paeth_predictor(a, b, c) == c,
        paeth_predictor(0, b, 0) == b,
        paeth_predictor(a, 0, 0) == a,
{
}

/// Copying a row of the same length over `current` gives that row.
proof fn lemma_with_raw_same_len(current: Seq<u8>, raw: Seq<u8>)
    requires
        raw.len() == current.len(),
    ensures
        with_raw(current, raw) == raw,
{
    assert(with_raw(current, raw) =~= raw);
}

proof fn lemma_sub_recon_inverts(recon: Seq<u8>, bpp: nat, i: int)
    requires
        bpp > 0,
        0 <= i < recon.len(),
    ensures
        sub_recon(sub_filter(recon, bpp), bpp, i) == recon[i],
    decreases i,
{
    lemma_byte_add_sub(recon[i], if i >= bpp { recon[i - bpp] } else { 0 });
    if i >= bpp {
        lemma_sub_recon_inverts(recon, bpp, i - bpp);
    }
}

proof fn lemma_avg_recon_inverts(recon: Seq<u8>, prior: Seq<u8>, bpp: nat, i: int)
    requires
        bpp > 0,
        0 <= i < recon.len(),
        recon.len() <= prior.len(),
    ensures
        avg_recon(avg_filter(recon, prior, bpp), prior, bpp, i) == recon[i],
    decreases i,
{
    if i >= bpp {
        lemma_avg_recon_inverts(recon, prior, bpp, i - bpp);
        lemma_byte_add_sub(recon[i], mean_floor(recon[i - bpp], prior[i]));
    } else {
        lemma_byte_add_sub(recon[i], mean_floor(0, prior[i]));
    }
}

proof fn lemma_paeth_recon_inverts(recon: Seq<u8>, prior: Seq<u8>, bpp: nat, i: int)
    requires
        bpp > 0,
        0 <= i < recon.len(),
        recon.len() <= prior.len(),
    ensures
        paeth_recon(paeth_filter(recon, prior, bpp), prior, bpp, i) == recon[i],
    decreases i,
{
    if i >= bpp {
        lemma_paeth_recon_inverts(recon, prior, bpp, i - bpp);
        lemma_byte_add_sub(recon[i], paeth_predictor(recon[i - bpp], prior[i], prior[i - bpp]));
    } else {
        lemma_paeth_predictor_choices(0, prior[i], 0);
        lemma_byte_add_sub(recon[i], paeth_predictor(0, prior[i], 0));
    }
}

/// Unless the rows are shorter than one pixel, the dedicated Average
/// routines agree with the byte-wise definition over the bytes both rows share.
pub proof fn lemma_avg_fast_path_agrees(
    current: Seq<u8>,
    previous: Seq<u8>,
    raw: Seq<u8>,
    bpp: nat,
)
    requires
        !(avg_paeth_have_fast_path(bpp as int) && 0 < min_int(
            previous.len() as int,
            current.len() as int,
        ) < bpp),
    ensures
        avg_result(current, previous, raw, bpp) == avg_row(
            with_raw(current, raw),
            previous,
            bpp,
            min_int(previous.len() as int, current.len() as int),
        ),
{
}

/// Unless the rows are shorter than one pixel, the dedicated Paeth routines
/// agree with the byte-wise definition over the bytes both rows share.
pub proof fn lemma_paeth_fast_path_agrees(
    current: Seq<u8>,
    previous: Seq<u8>,
    raw: Seq<u8>,
    bpp: nat,
)
    requires
        !(avg_paeth_have_fast_path(bpp as int) && 0 < min_int(
            previous.len() as int,
            current.len() as int,
        ) < bpp),
    ensures
        paeth_result(current, previous, raw, bpp) == paeth_row(
            with_raw(current, raw),
            previous,
            bpp,
            min_int(previous.len() as int, current.len() as int),
        ),
{
}

/// Undoing the Sub filter gives back the row that the filter was applied
/// to, for rows of any length.
pub proof fn lemma_sub_round_trip(recon: Seq<u8>, current: Seq<u8>, bpp: nat)
    requires
        bpp > 0,
        current.len() == recon.len(),
    ensures
        sub_result(current, sub_filter(recon, bpp), bpp) == recon,
{
    let raw = sub_filter(recon, bpp);
    lemma_with_raw_same_len(current, raw);
    assert forall|i: int| 0 <= i < recon.len() implies sub_recon(raw, bpp, i) == recon[i] by {
        lemma_sub_recon_inverts(recon, bpp, i);
    }
    assert(sub_result(current, raw, bpp) =~= recon);
}

/// Undoing the Up filter gives back the row that the filter was applied to.
pub proof fn lemma_up_round_trip(recon: Seq<u8>, prior: Seq<u8>, current: Seq<u8>)
    requires
        current.len() == recon.len(),
        recon.len() <= prior.len(),
    ensures
        up_result(current, prior, up_filter(recon, prior)) == recon,
{
    let raw = up_filter(recon, prior);
    lemma_with_raw_same_len(current, raw);
    assert forall|i: int| 0 <= i < recon.len() implies byte_add(raw[i], prior[i]) == recon[i] by {
        lemma_byte_add_sub(recon[i], prior[i]);
    }
    assert(up_result(current, prior, raw) =~= recon);
}

/// Undoing the Average filter gives back the row that the filter was
/// applied to, unless a dedicated routine meets a row shorter than one pixel.
pub proof fn lemma_avg_round_trip(recon: Seq<u8>, prior: Seq<u8>, current: Seq<u8>, bpp: nat)
    requires
        bpp > 0,
        current.len() == recon.len(),
        recon.len() <= prior.len(),
        !(avg_paeth_have_fast_path(bpp as int) && 0 < recon.len() < bpp),
    ensures
        avg_result(current, prior, avg_filter(recon, prior, bpp), bpp) == recon,
{
    let raw = avg_filter(recon, prior, bpp);
    lemma_with_raw_same_len(current, raw);
    assert forall|i: int| 0 <= i < recon.len() implies avg_recon(raw, prior, bpp, i)
        == recon[i] by {
        lemma_avg_recon_inverts(recon, prior, bpp, i);
    }
    assert(avg_result(current, prior, raw, bpp) =~= recon);
}

/// Undoing the Paeth filter gives back the row that the filter was applied
/// to, unless a dedicated routine meets a row shorter than one pixel.
pub proof fn lemma_paeth_round_trip(recon: Seq<u8>, prior: Seq<u8>, current: Seq<u8>, bpp: nat)
    requires
        bpp > 0,
        current.len() == recon.len(),
        recon.len() <= prior.len(),
        !(avg_paeth_have_fast_path(bpp as int) && 0 < recon.len() < bpp),
    ensures
        paeth_result(current, prior, paeth_filter(recon, prior, bpp), bpp) == recon,
{
    let raw = paeth_filter(recon, prior, bpp);
    lemma_with_raw_same_len(current, raw);
    assert forall|i: int| 0 <= i < recon.len() implies paeth_recon(raw, prior, bpp, i)
        == recon[i] by {
        lemma_paeth_recon_inverts(recon, prior, bpp, i);
    }
    assert(paeth_result(current, prior, raw, bpp) =~= recon);
}


proof fn lemma_paeth_recon_zero_prior(old: Seq<u8>, prior: Seq<u8>, bpp: nat, i: int)
    requires
        all_zero(prior),
        0 <= i < old.len(),
        old.len() <= prior.len(),
    ensures
        paeth_recon(old, prior, bpp, i) == sub_recon(old, bpp, i),
    decreases i,
{
    assert(prior[i] == 0);
    if i >= bpp && bpp > 0 {
        assert(prior[i - bpp] == 0);
        lemma_paeth_recon_zero_prior(old, prior, bpp, i - bpp);
        lemma_paeth_predictor_choices(sub_recon(old, bpp, i - bpp), 0, 0);
    } else if i >= bpp {
        lemma_paeth_predictor_choices(old[i], 0, 0);
    }
}

proof fn lemma_avg_recon_zero_prior(old: Seq<u8>, prior: Seq<u8>, bpp: nat, i: int)
    requires
        all_zero(prior),
        0 <= i < old.len(),
        old.len() <= prior.len(),
    ensures
        avg_recon(old, prior, bpp, i) == avg_first_recon(old, bpp, i),
    decreases i,
{
    assert(prior[i] == 0);
    if i >= bpp && bpp > 0 {
        lemma_avg_recon_zero_prior(old, prior, bpp, i - bpp);
    }
}

/// With the row above all zero, the Paeth reconstruction is the Sub
/// reconstruction, for rows of any length.
pub proof fn lemma_paeth_zero_prior_is_sub(
    current: Seq<u8>,
    previous: Seq<u8>,
    raw: Seq<u8>,
    bpp: nat,
)
    requires
        all_zero(previous),
        current.len() <= previous.len(),
    ensures
        paeth_result(current, previous, raw, bpp) == sub_result(current, raw, bpp),
{
    let old = with_raw(current, raw);
    assert forall|i: int| 0 <= i < old.len() implies paeth_recon(old, previous, bpp, i)
        == sub_recon(old, bpp, i) by {
        lemma_paeth_recon_zero_prior(old, previous, bpp, i);
    }
    assert(paeth_result(current, previous, raw, bpp) =~= sub_result(current, raw, bpp));
}

/// With the row above all zero, the Average reconstruction is the
/// first-row Average reconstruction, for rows of any length that `raw` covers.
pub proof fn lemma_avg_zero_prior_is_avg_first(
    current: Seq<u8>,
    previous: Seq<u8>,
    raw: Seq<u8>,
    bpp: nat,
)
    requires
        all_zero(previous),
        current.len() <= previous.len(),
        current.len() <= raw.len(),
    ensures
        avg_result(current, previous, raw, bpp) == avg_first_result(current, raw, bpp),
{
    let old = with_raw(current, raw);
    assert forall|i: int| 0 <= i < old.len() implies avg_recon(old, previous, bpp, i)
        == avg_first_recon(old, bpp, i) by {
        lemma_avg_recon_zero_prior(old, previous, bpp, i);
    }
    assert(avg_result(current, previous, raw, bpp) =~= avg_first_result(current, raw, bpp));
}

/// With the row above all zero, the Up reconstruction only copies `raw`.
pub proof fn lemma_up_zero_prior_is_copy(current: Seq<u8>, previous: Seq<u8>, raw: Seq<u8>)
    requires
        all_zero(previous),
        current.len() <= previous.len(),
    ensures
        up_result(current, previous, raw) == with_raw(current, raw),
{
    let old = with_raw(current, raw);
    assert forall|i: int| 0 <= i < old.len() implies byte_add(old[i], previous[i]) == old[i] by {
        assert(previous[i] == 0);
    }
    assert(up_result(current, previous, raw) =~= with_raw(current, raw));
}


/// The rounded-down mean of two bytes: twice the mean is their sum, or one
/// less; so the mean of a byte with itself is the byte, and with zero it is
/// half the byte, rounded down.
pub proof fn lemma_mean_floor_bounds(a: u8, b: u8)
    ensures
        2 * mean_floor(a, b) <= a + b <= 2 * mean_floor(a, b) + 1,
        mean_floor(a, a) == a,
        mean_floor(a, 0) == a / 2,
        mean_floor(a, b) == mean_floor(b, a),
{
}

/// A row handler declines a row exactly when `raw` or `current` is shorter
/// than one pixel of `components` bytes.
pub proof fn lemma_shorter_than_pixel_exact(raw: Seq<u8>, current: Seq<u8>, components: int)
    ensures
        shorter_than_pixel(raw, current, components) <==> (raw.len() < components
            || current.len() < components),
        raw.len() >= components && current.len() >= components ==> !shorter_than_pixel(
            raw,
            current,
            components,
        ),
{
}

/// The Paeth predictor picks the neighbour nearest to `a + b - c`,
/// preferring the left neighbour on a tie, and the upper-left one only when
/// it is strictly nearer than both others.
pub proof fn lemma_paeth_predictor_nearest(a: u8, b: u8, c: u8)
    ensures
        ({
            let p = a + b - c;
            let r = paeth_predictor(a, b, c);
            &&& abs_int(p - r) <= abs_int(p - a)
            &&& abs_int(p - r) <= abs_int(p - b)
            &&& abs_int(p - r) <= abs_int(p - c)
            &&& (r == a || r == b || r == c)
            &&& (abs_int(p - a) <= abs_int(p - b) && abs_int(p - a) <= abs_int(p - c) ==> r == a)
            &&& (r == c && c != a && c != b ==> abs_int(p - c) < abs_int(p - a) && abs_int(p - c)
                < abs_int(p - b))
        }),
{
}

/// Copying `raw` over `current` keeps the length of `current`, takes the
/// bytes of `raw` as far as both reach, and keeps the rest of `current`.
pub proof fn lemma_with_raw_copies(current: Seq<u8>, raw: Seq<u8>, i: int)
    requires
        0 <= i < current.len(),
    ensures
        with_raw(current, raw).len() == current.len(),
        i < raw.len() ==> with_raw(current, raw)[i] == raw[i],
        i >= raw.len() ==> with_raw(current, raw)[i] == current[i],
{
}

/// Sub reconstruction, byte by byte: a byte before the second pixel is kept;
/// every later byte is its filtered value plus the reconstructed byte one
/// pixel to its left, modulo 256.
pub proof fn lemma_sub_recon_step(old: Seq<u8>, bpp: nat, i: int)
    requires
        0 <= i < old.len(),
    ensures
        i < bpp ==> sub_recon(old, bpp, i) == old[i],
        bpp > 0 && i >= bpp ==> sub_recon(old, bpp, i) as int == (old[i] + sub_recon(
            old,
            bpp,
            i - bpp,
        )) % 256,
{
    if i >= bpp && bpp > 0 {
        lemma_byte_add_sub(old[i], sub_recon(old, bpp, i - bpp));
    }
}

/// Average reconstruction, byte by byte: a byte of the first pixel adds half
/// the byte above, rounded down; every later byte adds the rounded-down mean
/// of the reconstructed byte one pixel to its left and the byte above,
/// modulo 256.
pub proof fn lemma_avg_recon_step(old: Seq<u8>, prior: Seq<u8>, bpp: nat, i: int)
    requires
        0 <= i < old.len(),
        old.len() <= prior.len(),
    ensures
        i < bpp ==> avg_recon(old, prior, bpp, i) as int == (old[i] + prior[i] / 2) % 256,
        bpp > 0 && i >= bpp ==> avg_recon(old, prior, bpp, i) as int == (old[i] + (avg_recon(
            old,
            prior,
            bpp,
            i - bpp,
        ) + prior[i]) / 2) % 256,
{
    if i >= bpp && bpp > 0 {
        let m = mean_floor(avg_recon(old, prior, bpp, i - bpp), prior[i]);
        lemma_byte_add_sub(old[i], m);
    } else if i < bpp {
        lemma_byte_add_sub(old[i], prior[i] / 2);
    }
}

/// First-row Average reconstruction, byte by byte: a byte of the first pixel
/// is kept; every later byte adds half the reconstructed byte one pixel to
/// its left, rounded down, modulo 256.
pub proof fn lemma_avg_first_recon_step(old: Seq<u8>, bpp: nat, i: int)
    requires
        0 <= i < old.len(),
    ensures
        i < bpp ==> avg_first_recon(old, bpp, i) == old[i],
        bpp > 0 && i >= bpp ==> avg_first_recon(old, bpp, i) as int == (old[i]
            + avg_first_recon(old, bpp, i - bpp) / 2) % 256,
{
    if i >= bpp && bpp > 0 {
        lemma_byte_add_sub(old[i], avg_first_recon(old, bpp, i - bpp) / 2);
    }
}

/// Paeth reconstruction, byte by byte: a byte of the first pixel adds the
/// byte above; every later byte adds the Paeth predictor of its reconstructed
/// left, upper and upper-left neighbours, modulo 256.
pub proof fn lemma_paeth_recon_step(old: Seq<u8>, prior: Seq<u8>, bpp: nat, i: int)
    requires
        0 <= i < old.len(),
        old.len() <= prior.len(),
    ensures
        i < bpp ==> paeth_recon(old, prior, bpp, i) as int == (old[i] + prior[i]) % 256,
        bpp > 0 && i >= bpp ==> paeth_recon(old, prior, bpp, i) as int == (old[i]
            + paeth_predictor(paeth_recon(old, prior, bpp, i - bpp), prior[i], prior[i - bpp]))
            % 256,
{
    if i >= bpp && bpp > 0 {
        lemma_byte_add_sub(
            old[i],
            paeth_predictor(paeth_recon(old, prior, bpp, i - bpp), prior[i], prior[i - bpp]),
        );
    } else if i < bpp {
        lemma_byte_add_sub(old[i], prior[i]);
    }
}

proof fn lemma_avg_first_recon_inverts(recon: Seq<u8>, bpp: nat, i: int)
    requires
        bpp > 0,
        0 <= i < recon.len(),
    ensures
        avg_first_recon(avg_first_filter(recon, bpp), bpp, i) == recon[i],
    decreases i,
{
    if i >= bpp {
        lemma_avg_first_recon_inverts(recon, bpp, i - bpp);
        lemma_byte_add_sub(recon[i], recon[i - bpp] / 2);
    } else {
        lemma_byte_add_sub(recon[i], 0);
    }
}

/// Undoing the first-row Average filter gives back the row that the filter
/// was applied to, for rows of any length.
pub proof fn lemma_avg_first_round_trip(recon: Seq<u8>, current: Seq<u8>, bpp: nat)
    requires
        bpp > 0,
        current.len() == recon.len(),
    ensures
        avg_first_result(current, avg_first_filter(recon, bpp), bpp) == recon,
{
    let raw = avg_first_filter(recon, bpp);
    lemma_with_raw_same_len(current, raw);
    assert forall|i: int| 0 <= i < recon.len() implies avg_first_recon(raw, bpp, i)
        == recon[i] by {
        lemma_avg_first_recon_inverts(recon, bpp, i);
    }
    assert(avg_first_result(current, raw, bpp) =~= recon);
}

} // verus!
