//! Mathematical model of PNG scanline reconstruction.
use vstd::prelude::*;

verus! {

/// Byte addition modulo 256, the arithmetic PNG uses to undo a filter.
pub open spec fn byte_add(x: u8, y: u8) -> u8 {
    vstd::wrapping::u8_specs::wrapping_add(x, y)
}

/// Byte subtraction modulo 256, the arithmetic PNG uses to apply a filter.
pub open spec fn byte_sub(x: u8, y: u8) -> u8 {
    vstd::wrapping::u8_specs::wrapping_sub(x, y)
}

/// The mean of two bytes, rounded down.
pub open spec fn mean_floor(a: u8, b: u8) -> u8 {
    ((a + b) / 2) as u8
}

/// Absolute value of an integer.
pub open spec fn abs_int(x: int) -> int {
    if x < 0 { -x } else { x }
}

/// The Paeth predictor as the PNG specification defines it: of the left
/// neighbour `a`, the upper neighbour `b` and the upper-left neighbour `c`,
/// the one closest to `a + b - c`, ties broken in the order `a`, `b`, `c`.
pub open spec fn paeth_predictor(a: u8, b: u8, c: u8) -> u8 {
    let p = a + b - c;
    let pa = abs_int(p - a);
    let pb = abs_int(p - b);
    let pc = abs_int(p - c);
    if pa <= pb && pa <= pc {
        a
    } else if pb <= pc {
        b
    } else {
        c
    }
}


/// Sub filter: reconstructed byte `i` of a row whose filtered bytes are `old`.
pub open spec fn sub_recon(old: Seq<u8>, bpp: nat, i: int) -> u8
    decreases i,
{
    if i < bpp || i < 0 {
        old[i]
    } else if bpp == 0 {
        byte_add(old[i], old[i])
    } else {
        byte_add(old[i], sub_recon(old, bpp, i - bpp))
    }
}

/// Average filter: reconstructed byte `i`, with `prior` the row above.
pub open spec fn avg_recon(old: Seq<u8>, prior: Seq<u8>, bpp: nat, i: int) -> u8
    decreases i,
{
    if i < bpp || i < 0 {
        byte_add(old[i], prior[i] / 2)
    } else if bpp == 0 {
        byte_add(old[i], mean_floor(old[i], prior[i]))
    } else {
        byte_add(old[i], mean_floor(avg_recon(old, prior, bpp, i - bpp), prior[i]))
    }
}

/// Paeth filter: reconstructed byte `i`, with `prior` the row above.
pub open spec fn paeth_recon(old: Seq<u8>, prior: Seq<u8>, bpp: nat, i: int) -> u8
    decreases i,
{
    if i < bpp || i < 0 {
        byte_add(old[i], prior[i])
    } else if bpp == 0 {
        byte_add(old[i], paeth_predictor(old[i], prior[i], prior[i]))
    } else {
        byte_add(
            old[i],
            paeth_predictor(paeth_recon(old, prior, bpp, i - bpp), prior[i], prior[i - bpp]),
        )
    }
}

/// The row after the Sub filter is undone on its first `limit` bytes.
pub open spec fn sub_row(old: Seq<u8>, bpp: nat, limit: int) -> Seq<u8> {
    Seq::new(old.len(), |i: int| if i < limit { sub_recon(old, bpp, i) } else { old[i] })
}

/// The row after the Up filter is undone on its first `limit` bytes.
pub open spec fn up_row(old: Seq<u8>, prior: Seq<u8>, limit: int) -> Seq<u8> {
    Seq::new(old.len(), |i: int| if i < limit { byte_add(old[i], prior[i]) } else { old[i] })
}

/// The row after the Average filter is undone on its first `limit` bytes.
pub open spec fn avg_row(old: Seq<u8>, prior: Seq<u8>, bpp: nat, limit: int) -> Seq<u8> {
    Seq::new(old.len(), |i: int| if i < limit { avg_recon(old, prior, bpp, i) } else { old[i] })
}

/// The row after the Paeth filter is undone on its first `limit` bytes.
pub open spec fn paeth_row(old: Seq<u8>, prior: Seq<u8>, bpp: nat, limit: int) -> Seq<u8> {
    Seq::new(old.len(), |i: int| if i < limit { paeth_recon(old, prior, bpp, i) } else { old[i] })
}

/// The first-row Average filter (the row above is zero) undone on the
/// first `limit` bytes: each byte past the first pixel adds half of the
/// reconstructed byte `bpp` to its left.
pub open spec fn avg_first_recon(old: Seq<u8>, bpp: nat, i: int) -> u8
    decreases i,
{
    if i < bpp || i < 0 {
        old[i]
    } else if bpp == 0 {
        byte_add(old[i], old[i] / 2)
    } else {
        byte_add(old[i], avg_first_recon(old, bpp, i - bpp) / 2)
    }
}

/// The row after the first-row Average filter is undone on its first `limit` bytes.
pub open spec fn avg_first_row(old: Seq<u8>, bpp: nat, limit: int) -> Seq<u8> {
    Seq::new(old.len(), |i: int| if i < limit { avg_first_recon(old, bpp, i) } else { old[i] })
}

/// `current` with its first bytes replaced by those of `raw`, as far as both reach.
pub open spec fn with_raw(current: Seq<u8>, raw: Seq<u8>) -> Seq<u8> {
    Seq::new(current.len(), |i: int| if i < raw.len() { raw[i] } else { current[i] })
}

/// The smaller of two integers.
pub open spec fn min_int(a: int, b: int) -> int {
    if a <= b { a } else { b }
}

/// Whether the Average and Paeth filters have a dedicated routine for this pixel width.
pub open spec fn avg_paeth_have_fast_path(bpp: int) -> bool {
    bpp == 3 || bpp == 4 || bpp == 6 || bpp == 8
}

/// How many leading bytes the Average and Paeth filters reconstruct, where
/// `len` is the length shared by the row and the row above: all of them,
/// except that a dedicated routine leaves a row shorter than one pixel as it is.
pub open spec fn pixel_limit(bpp: int, len: int) -> int {
    if avg_paeth_have_fast_path(bpp) && len < bpp { 0 } else { len }
}

/// What the Sub dispatcher leaves in `current`: `raw` copied over its start,
/// then the filter undone on the whole row.
pub open spec fn sub_result(current: Seq<u8>, raw: Seq<u8>, bpp: nat) -> Seq<u8> {
    sub_row(with_raw(current, raw), bpp, current.len() as int)
}

/// What the Up reconstruction leaves in `current` after `raw` is copied over it.
pub open spec fn up_result(current: Seq<u8>, previous: Seq<u8>, raw: Seq<u8>) -> Seq<u8> {
    up_row(
        with_raw(current, raw),
        previous,
        min_int(previous.len() as int, current.len() as int),
    )
}

/// What the Average dispatcher leaves in `current`.
pub open spec fn avg_result(current: Seq<u8>, previous: Seq<u8>, raw: Seq<u8>, bpp: nat) -> Seq<u8> {
    avg_row(
        with_raw(current, raw),
        previous,
        bpp,
        pixel_limit(bpp as int, min_int(previous.len() as int, current.len() as int)),
    )
}

/// What the Paeth dispatcher leaves in `current`.
pub open spec fn paeth_result(current: Seq<u8>, previous: Seq<u8>, raw: Seq<u8>, bpp: nat) -> Seq<u8> {
    paeth_row(
        with_raw(current, raw),
        previous,
        bpp,
        pixel_limit(bpp as int, min_int(previous.len() as int, current.len() as int)),
    )
}

/// What the first-row Average reconstruction leaves in `current`.
pub open spec fn avg_first_result(current: Seq<u8>, raw: Seq<u8>, bpp: nat) -> Seq<u8> {
    avg_first_row(with_raw(current, raw), bpp, min_int(raw.len() as int, current.len() as int))
}

/// Whether a row handler declines its input: `raw` or `current` is shorter
/// than one pixel of `components` bytes.
pub open spec fn shorter_than_pixel(raw: Seq<u8>, current: Seq<u8>, components: int) -> bool {
    raw.len() < components || current.len() < components
}


/// The byte `bpp` positions to the left of `i` in `row`, zero before the row starts.
pub open spec fn left_byte(row: Seq<u8>, bpp: nat, i: int) -> u8 {
    if i >= bpp { row[i - bpp] } else { 0 }
}

/// The Sub filter as an encoder applies it to the reconstructed row `recon`:
/// each byte minus the byte one pixel to its left, modulo 256.
pub open spec fn sub_filter(recon: Seq<u8>, bpp: nat) -> Seq<u8> {
    Seq::new(recon.len(), |i: int| ((recon[i] - left_byte(recon, bpp, i)) % 256) as u8)
}

/// The Up filter as an encoder applies it, with `prior` the row above: each
/// byte minus the byte above it, modulo 256.
pub open spec fn up_filter(recon: Seq<u8>, prior: Seq<u8>) -> Seq<u8> {
    Seq::new(recon.len(), |i: int| ((recon[i] - prior[i]) % 256) as u8)
}

/// The Average filter as an encoder applies it, with `prior` the row above:
/// each byte minus the rounded-down mean of its left and upper neighbours,
/// modulo 256.
pub open spec fn avg_filter(recon: Seq<u8>, prior: Seq<u8>, bpp: nat) -> Seq<u8> {
    Seq::new(
        recon.len(),
        |i: int| ((recon[i] - (left_byte(recon, bpp, i) + prior[i]) / 2) % 256) as u8,
    )
}

/// The Average filter of a first row (the row above is zero) as an encoder
/// applies it: each byte minus half its left neighbour, rounded down, modulo 256.
pub open spec fn avg_first_filter(recon: Seq<u8>, bpp: nat) -> Seq<u8> {
    Seq::new(recon.len(), |i: int| ((recon[i] - left_byte(recon, bpp, i) / 2) % 256) as u8)
}

/// The Paeth filter as an encoder applies it, with `prior` the row above.
pub open spec fn paeth_filter(recon: Seq<u8>, prior: Seq<u8>, bpp: nat) -> Seq<u8> {
    Seq::new(
        recon.len(),
        |i: int|
            ((recon[i] - paeth_predictor(
                left_byte(recon, bpp, i),
                prior[i],
                left_byte(prior, bpp, i),
            )) % 256) as u8,
    )
}

/// Whether every byte of `row` is zero.
pub open spec fn all_zero(row: Seq<u8>) -> bool {
    forall|i: int| 0 <= i < row.len() ==> #[trigger] row[i] == 0
}

} // verus!
