use zune_png::de_filter::{handle_avg, handle_avg_first, handle_paeth, handle_sub, handle_up, paeth};
use zune_png::fast::{
    unfilter_avg, unfilter_avg_first, unfilter_paeth, unfilter_paeth_first, unfilter_sub,
    unfilter_up,
};

fn reference_paeth(a: u8, b: u8, c: u8) -> u8 {
    let p = a as i32 + b as i32 - c as i32;
    let pa = (p - a as i32).abs();
    let pb = (p - b as i32).abs();
    let pc = (p - c as i32).abs();
    if pa <= pb && pa <= pc {
        a
    } else if pb <= pc {
        b
    } else {
        c
    }
}

fn row(seed: u32, len: usize) -> Vec<u8> {
    let mut x = seed;
    (0..len)
        .map(|_| {
            x = x.wrapping_mul(1_103_515_245).wrapping_add(12_345);
            (x >> 16) as u8
        })
        .collect()
}

fn left(r: &[u8], bpp: usize, i: usize) -> u8 {
    if i >= bpp { r[i - bpp] } else { 0 }
}

fn sub_filter(r: &[u8], bpp: usize) -> Vec<u8> {
    (0..r.len()).map(|i| r[i].wrapping_sub(left(r, bpp, i))).collect()
}

fn up_filter(r: &[u8], prior: &[u8]) -> Vec<u8> {
    (0..r.len()).map(|i| r[i].wrapping_sub(prior[i])).collect()
}

fn avg_filter(r: &[u8], prior: &[u8], bpp: usize) -> Vec<u8> {
    (0..r.len())
        .map(|i| r[i].wrapping_sub(((left(r, bpp, i) as u16 + prior[i] as u16) / 2) as u8))
        .collect()
}

fn paeth_filter(r: &[u8], prior: &[u8], bpp: usize) -> Vec<u8> {
    (0..r.len())
        .map(|i| r[i].wrapping_sub(reference_paeth(left(r, bpp, i), prior[i], left(prior, bpp, i))))
        .collect()
}

#[test]
fn paeth_agrees_with_png_definition_everywhere() {
    for a in 0..=255u8 {
        for b in 0..=255u8 {
            for c in 0..=255u8 {
                assert_eq!(paeth(a, b, c), reference_paeth(a, b, c));
            }
        }
    }
}

#[test]
fn paeth_with_zero_neighbours() {
    for v in 0..=255u8 {
        assert_eq!(paeth(0, v, 0), v);
        assert_eq!(paeth(v, 0, 0), v);
    }
}

#[test]
fn sub_round_trip() {
    for bpp in 1..=8usize {
        let recon = row(bpp as u32, bpp * 7);
        let raw = sub_filter(&recon, bpp);
        let mut cur = vec![0u8; recon.len()];
        unfilter_sub(&raw, &mut cur, bpp);
        assert_eq!(cur, recon);
        let mut cur2 = vec![0u8; recon.len()];
        handle_sub(&raw, &mut cur2, bpp, false);
        assert_eq!(cur2, recon);
    }
}

#[test]
fn up_round_trip() {
    let prior = row(7, 40);
    let recon = row(8, 40);
    let raw = up_filter(&recon, &prior);
    let mut cur = vec![0u8; 40];
    handle_up(&prior, &raw, &mut cur);
    assert_eq!(cur, recon);
}

#[test]
fn avg_round_trip() {
    for bpp in 1..=8usize {
        let prior = row(100 + bpp as u32, bpp * 9);
        let recon = row(200 + bpp as u32, bpp * 9);
        let raw = avg_filter(&recon, &prior, bpp);
        let mut cur = vec![0u8; recon.len()];
        unfilter_avg(&prior, &raw, &mut cur, bpp);
        assert_eq!(cur, recon);
        let mut cur2 = vec![0u8; recon.len()];
        handle_avg(&prior, &raw, &mut cur2, bpp, true);
        assert_eq!(cur2, recon);
    }
}

#[test]
fn paeth_round_trip() {
    for bpp in 1..=8usize {
        let prior = row(300 + bpp as u32, bpp * 5 + 1);
        let recon = row(400 + bpp as u32, bpp * 5 + 1);
        let raw = paeth_filter(&recon, &prior, bpp);
        let mut cur = vec![0u8; recon.len()];
        unfilter_paeth(&prior, &raw, &mut cur, bpp);
        assert_eq!(cur, recon);
        let mut cur2 = vec![0u8; recon.len()];
        handle_paeth(&prior, &raw, &mut cur2, bpp, false);
        assert_eq!(cur2, recon);
    }
}

#[test]
fn round_trip_on_partial_pixel_rows() {
    let recon = vec![10u8, 20, 30, 40];
    let raw = sub_filter(&recon, 3);
    let mut cur = vec![0u8; 4];
    unfilter_sub(&raw, &mut cur, 3);
    assert_eq!(cur, recon);
    for bpp in 1..=8usize {
        for len in [bpp + 1, 2 * bpp + 1, 3 * bpp + bpp / 2 + 1] {
            let prior = row(700 + len as u32, len);
            let recon = row(800 + len as u32, len);
            let mut s = vec![0u8; len];
            unfilter_sub(&sub_filter(&recon, bpp), &mut s, bpp);
            assert_eq!(s, recon);
            let mut a = vec![0u8; len];
            unfilter_avg(&prior, &avg_filter(&recon, &prior, bpp), &mut a, bpp);
            assert_eq!(a, recon);
            let mut p = vec![0u8; len];
            unfilter_paeth(&prior, &paeth_filter(&recon, &prior, bpp), &mut p, bpp);
            assert_eq!(p, recon);
        }
    }
}

#[test]
fn paeth_over_zero_row_is_sub() {
    for bpp in 1..=8usize {
        for len in 0..(bpp * 4 + 3) {
            let raw = row(500 + (bpp * 100 + len) as u32, len);
            let zeros = vec![0u8; raw.len()];
            let mut a = vec![0u8; raw.len()];
            unfilter_paeth(&zeros, &raw, &mut a, bpp);
            let mut b = vec![0u8; raw.len()];
            unfilter_sub(&raw, &mut b, bpp);
            assert_eq!(a, b);
            let mut c = vec![0u8; raw.len()];
            unfilter_paeth_first(&raw, &mut c, bpp);
            assert_eq!(a, c);
        }
    }
}

#[test]
fn avg_over_zero_row_is_avg_first() {
    for bpp in 1..=8usize {
      for len in 0..(bpp * 4 + 3) {
        let raw = row(600 + (bpp * 100 + len) as u32, len);
        let zeros = vec![0u8; raw.len()];
        let mut a = vec![0u8; raw.len()];
        unfilter_avg(&zeros, &raw, &mut a, bpp);
        let mut b = vec![0u8; raw.len()];
        unfilter_avg_first(&raw, &mut b, bpp);
        assert_eq!(a, b);
        let mut c = vec![0u8; raw.len()];
        handle_avg_first(&raw, &mut c, bpp);
        if len >= bpp {
            assert_eq!(a, c);
        }
      }
    }
}

#[test]
fn up_over_zero_row_copies() {
    let raw = row(9, 12);
    let mut cur = vec![5u8; 14];
    unfilter_up(&[0u8; 20], &mut cur);
    assert_eq!(cur, vec![5u8; 14]);
    let mut cur2 = vec![5u8; 14];
    handle_up(&[0u8; 20], &raw, &mut cur2);
    assert_eq!(&cur2[..12], &raw[..]);
    assert_eq!(&cur2[12..], &[5u8, 5]);
}
