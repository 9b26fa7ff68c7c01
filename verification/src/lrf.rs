//! Self-guided loop restoration: per-stripe blend weights from box sums and
//! box sums of squares looked up in integral images, and the separable tent
//! filters that combine neighbouring weights with the filtered samples.

use vstd::prelude::*;
use vstd::arithmetic::power2::pow2;
use crate::plane::PlaneSlice;
use crate::util::{rshift, lemma_rshift_range, lemma_rshift_nonneg_le};

verus! {

/// Fixed-point bits of the blend-weight scale.
pub const SGRPROJ_SGR_BITS: usize = 8;

/// Fixed-point bits of the reciprocal-of-window-size constants.
pub const SGRPROJ_RECIP_BITS: usize = 12;

/// Extra precision bits of the restoration filter output.
pub const SGRPROJ_RST_BITS: usize = 4;

/// Fixed-point bits of the variance-to-index mapping.
pub const SGRPROJ_MTABLE_BITS: usize = 20;

/// The saturating `x / (x + 1)` curve, scaled by 256, over indices 0..=255.
pub open spec fn x_by_xplus1() -> Seq<int> {
    seq![
        1, 128, 171, 192, 205, 213, 219, 224, 228, 230, 233, 235, 236, 238, 239, 240,
        241, 242, 243, 243, 244, 244, 245, 245, 246, 246, 247, 247, 247, 247, 248, 248,
        248, 248, 249, 249, 249, 249, 249, 250, 250, 250, 250, 250, 250, 250, 251, 251,
        251, 251, 251, 251, 251, 251, 251, 251, 252, 252, 252, 252, 252, 252, 252, 252,
        252, 252, 252, 252, 252, 252, 252, 252, 252, 253, 253, 253, 253, 253, 253, 253,
        253, 253, 253, 253, 253, 253, 253, 253, 253, 253, 253, 253, 253, 253, 253, 253,
        253, 253, 253, 253, 253, 253, 254, 254, 254, 254, 254, 254, 254, 254, 254, 254,
        254, 254, 254, 254, 254, 254, 254, 254, 254, 254, 254, 254, 254, 254, 254, 254,
        254, 254, 254, 254, 254, 254, 254, 254, 254, 254, 254, 254, 254, 254, 254, 254,
        254, 254, 254, 254, 254, 254, 254, 254, 254, 254, 254, 254, 254, 254, 254, 254,
        254, 254, 254, 254, 254, 254, 254, 254, 254, 254, 255, 255, 255, 255, 255, 255,
        255, 255, 255, 255, 255, 255, 255, 255, 255, 255, 255, 255, 255, 255, 255, 255,
        255, 255, 255, 255, 255, 255, 255, 255, 255, 255, 255, 255, 255, 255, 255, 255,
        255, 255, 255, 255, 255, 255, 255, 255, 255, 255, 255, 255, 255, 255, 255, 255,
        255, 255, 255, 255, 255, 255, 255, 255, 255, 255, 255, 255, 255, 255, 255, 255,
        255, 255, 255, 255, 255, 255, 255, 255, 255, 255, 255, 255, 255, 255, 255, 256,
    ]
}

/// Look one entry up in the `x / (x + 1)` curve.
#[verifier::rlimit(100)]
fn x_by_xplus1_at(i: usize) -> (r: u32)
    requires
        i < 256,
    ensures
        r as int == x_by_xplus1()[i as int],
        1 <= r <= 256,
{
    let table: [u32; 256] = [
        1, 128, 171, 192, 205, 213, 219, 224, 228, 230, 233, 235, 236, 238, 239, 240,
        241, 242, 243, 243, 244, 244, 245, 245, 246, 246, 247, 247, 247, 247, 248, 248,
        248, 248, 249, 249, 249, 249, 249, 250, 250, 250, 250, 250, 250, 250, 251, 251,
        251, 251, 251, 251, 251, 251, 251, 251, 252, 252, 252, 252, 252, 252, 252, 252,
        252, 252, 252, 252, 252, 252, 252, 252, 252, 253, 253, 253, 253, 253, 253, 253,
        253, 253, 253, 253, 253, 253, 253, 253, 253, 253, 253, 253, 253, 253, 253, 253,
        253, 253, 253, 253, 253, 253, 254, 254, 254, 254, 254, 254, 254, 254, 254, 254,
        254, 254, 254, 254, 254, 254, 254, 254, 254, 254, 254, 254, 254, 254, 254, 254,
        254, 254, 254, 254, 254, 254, 254, 254, 254, 254, 254, 254, 254, 254, 254, 254,
        254, 254, 254, 254, 254, 254, 254, 254, 254, 254, 254, 254, 254, 254, 254, 254,
        254, 254, 254, 254, 254, 254, 254, 254, 254, 254, 255, 255, 255, 255, 255, 255,
        255, 255, 255, 255, 255, 255, 255, 255, 255, 255, 255, 255, 255, 255, 255, 255,
        255, 255, 255, 255, 255, 255, 255, 255, 255, 255, 255, 255, 255, 255, 255, 255,
        255, 255, 255, 255, 255, 255, 255, 255, 255, 255, 255, 255, 255, 255, 255, 255,
        255, 255, 255, 255, 255, 255, 255, 255, 255, 255, 255, 255, 255, 255, 255, 255,
        255, 255, 255, 255, 255, 255, 255, 255, 255, 255, 255, 255, 255, 255, 255, 256,
    ];
    let v = table[i];
    proof {
        assert(table@[i as int] as int == x_by_xplus1()[i as int]);
        assert(1 <= table@[i as int] <= 256);
    }
    v
}

/// The four-point lookup into an integral image for the `size` × `size`
/// window at (`x`, `y`), with the wrap-around arithmetic of the machine
/// words; it equals the window sum whenever the integral image is consistent.
pub open spec fn isum(iimg: Seq<u32>, stride: int, x: int, y: int, size: int) -> int {
    let tl = iimg[y * stride + x] as int;
    let tr = iimg[y * stride + x + size] as int;
    let bl = iimg[(y + size) * stride + x] as int;
    let br = iimg[(y + size) * stride + x + size] as int;
    (tl + br - bl - tr) % 0x1_0000_0000
}

/// Four-point integral-image lookup.
fn get_integral_square(iimg: &Vec<u32>, stride: usize, x: usize, y: usize, size: usize) -> (r: u32)
    requires
        stride >= 1,
        size >= 1,
        (y + size) * stride + x + size < iimg@.len(),
    ensures
        r as int == isum(iimg@, stride as int, x as int, y as int, size as int),
{
    let ilen: usize = iimg.len();
    proof {
        assert(y * stride + x + size < (y + size) * stride + x + size) by (nonlinear_arith)
            requires stride >= 1 && size >= 1 && y >= 0 && x >= 0;
        assert(y * stride >= 0) by (nonlinear_arith)
            requires y >= 0 && stride >= 1;
        assert((y + size) * stride >= y * stride) by (nonlinear_arith)
            requires stride >= 1 && size >= 0 && y >= 0;
        assert((y + size) * stride + x + size < ilen);
        assert((y + size) * stride + x <= (y + size) * stride + x + size);
        assert(y + size <= (y + size) * stride) by (nonlinear_arith)
            requires stride >= 1 && y >= 0 && size >= 0;
    }
    let tl: u64 = iimg[y * stride + x] as u64;
    let tr: u64 = iimg[y * stride + x + size] as u64;
    let bl: u64 = iimg[(y + size) * stride + x] as u64;
    let br: u64 = iimg[(y + size) * stride + x + size] as u64;
    let raw: u64 = (tl + br + 0x2_0000_0000) - (bl + tr);
    let r: u64 = raw % 0x1_0000_0000;
    proof {
        let v = tl as int + br - bl - tr;
        assert(raw as int == v + 2 * 0x1_0000_0000);
        lemma_mod_shift_away(v, 2);
        vstd::arithmetic::div_mod::lemma_mod_bound(v, 0x1_0000_0000);
    }
    r as u32
}

/// Adding whole multiples of the modulus does not change a remainder.
proof fn lemma_mod_shift_away(v: int, k: int)
    requires
        k >= 0,
    ensures
        (v + k * 0x1_0000_0000) % 0x1_0000_0000 == v % 0x1_0000_0000,
{
    vstd::arithmetic::div_mod::lemma_mod_multiples_vanish(k, v, 0x1_0000_0000);
}

/// The blend weight `a` of the window at (`x`, `y`): the bit-depth-normalised
/// variance `p = max(0, n·Σsq − Σ²)`, scaled by the strength `s`, drives the
/// 256-entry `x / (x + 1)` lookup.
pub open spec fn sgr_a(
    iimg: Seq<u32>, iimg_sq: Seq<u32>, stride: int, x: int, y: int,
    r: int, s: u32, bd: int,
) -> int {
    let d = 2 * r + 1;
    let n = d * d;
    let sum = isum(iimg, stride, x, y, d);
    let ssq = isum(iimg_sq, stride, x, y, d);
    let scaled_sum = rshift(sum, (bd - 8) as nat);
    let scaled_ssq = rshift(ssq, (2 * (bd - 8)) as nat);
    let p = if scaled_ssq * n - scaled_sum * scaled_sum < 0 {
        0int
    } else {
        scaled_ssq * n - scaled_sum * scaled_sum
    };
    let z = rshift(p * s, 20);
    x_by_xplus1()[if z < 255 { z } else { 255int }]
}

/// The complementary linear term `b` of the window at (`x`, `y`): the
/// remaining weight applied to the box sum through the fixed-point
/// reciprocal of the window size.
pub open spec fn sgr_b(
    iimg: Seq<u32>, iimg_sq: Seq<u32>, stride: int, x: int, y: int,
    r: int, s: u32, bd: int,
) -> int {
    let d = 2 * r + 1;
    let sum = isum(iimg, stride, x, y, d);
    let a = sgr_a(iimg, iimg_sq, stride, x, y, r, s, bd);
    let one_over_n = if r == 1 { 455int } else { 164int };
    rshift((256 - a) * sum * one_over_n, 12)
}

/// The integral images describe samples below `2^bd` for every window the
/// stripe reads, so each looked-up value is a true window sum (and in
/// particular small enough for the fixed-point arithmetic).
pub open spec fn sgr_windows_ok(
    iimg: Seq<u32>, iimg_sq: Seq<u32>, stride: int, y: int, stripe_w: int,
    r: int, bd: int,
) -> bool {
    forall |x: int| 0 <= x < stripe_w + 2 ==> {
        &&& 0 <= #[trigger] isum(iimg, stride, x, y, 2 * r + 1)
            <= (2 * r + 1) * (2 * r + 1) * (pow2(bd as nat) - 1)
        &&& 0 <= isum(iimg_sq, stride, x, y, 2 * r + 1)
            <= (2 * r + 1) * (2 * r + 1) * (pow2(bd as nat) - 1) * (pow2(bd as nat) - 1)
    }
}


/// Write one entry of a weight buffer.
fn vset32(t: &mut Vec<u32>, i: usize, v: u32)
    requires
        i < old(t)@.len(),
    ensures
        final(t)@ == old(t)@.update(i as int, v),
        final(t)@.len() == old(t)@.len(),
{
    t[i] = v;
}

/// Compute the blend weights `a` and linear terms `b` of one stripe row for
/// radius `r`: entries `0 ..= stripe_w + 1` of `af` and `bf`.
#[verifier::rlimit(100)]
fn sgrproj_box_ab(
    r: usize,
    af: &mut Vec<u32>,
    bf: &mut Vec<u32>,
    iimg: &Vec<u32>,
    iimg_sq: &Vec<u32>,
    iimg_stride: usize,
    y: usize,
    stripe_w: usize,
    s: u32,
    bd: usize,
)
    requires
        r == 1 || r == 2,
        8 <= bd <= 12,
        iimg_stride >= 1,
        stripe_w + 2 <= old(af)@.len(),
        stripe_w + 2 <= old(bf)@.len(),
        (y + 2 * r + 1) * iimg_stride + stripe_w + 2 + 2 * r < iimg@.len(),
        (y + 2 * r + 1) * iimg_stride + stripe_w + 2 + 2 * r < iimg_sq@.len(),
        sgr_windows_ok(iimg@, iimg_sq@, iimg_stride as int, y as int, stripe_w as int,
            r as int, bd as int),
    ensures
        final(af)@.len() == old(af)@.len(),
        final(bf)@.len() == old(bf)@.len(),
        forall |x: int| 0 <= x < stripe_w + 2
            ==> #[trigger] final(af)@[x] as int == sgr_a(iimg@, iimg_sq@, iimg_stride as int,
                    x, y as int, r as int, s, bd as int)
                && final(bf)@[x] as int == sgr_b(iimg@, iimg_sq@, iimg_stride as int,
                    x, y as int, r as int, s, bd as int),
        forall |x: int| stripe_w + 2 <= x < old(af)@.len()
            ==> #[trigger] final(af)@[x] == old(af)@[x],
        forall |x: int| stripe_w + 2 <= x < old(bf)@.len()
            ==> #[trigger] final(bf)@[x] == old(bf)@[x],
{
    let d: usize = 2 * r + 1;
    let bdm8: usize = bd - 8;
    let one_over_n: u64 = if r == 1 { 455 } else { 164 };
    let af_len: usize = af.len();
    let bf_len: usize = bf.len();
    proof {
        assert((y + d) * iimg_stride >= 0) by (nonlinear_arith)
            requires y >= 0 && d >= 1 && iimg_stride >= 1;
    }
    let ilen: usize = iimg.len();
    let mut x: usize = 0;
    while x < stripe_w + 2
        invariant
            r == 1 || r == 2,
            d == 2 * r + 1,
            8 <= bd <= 12,
            bdm8 == bd - 8,
            one_over_n == (if r == 1 { 455int } else { 164int }),
            iimg_stride >= 1,
            stripe_w + 2 <= af@.len(),
            stripe_w + 2 <= bf@.len(),
            af@.len() == old(af)@.len(),
            bf@.len() == old(bf)@.len(),
            af@.len() == af_len,
            bf@.len() == bf_len,
            iimg@.len() == ilen,
            (y + d) * iimg_stride + stripe_w + 2 + 2 * r < iimg@.len(),
            (y + d) * iimg_stride + stripe_w + 2 + 2 * r < iimg_sq@.len(),
            sgr_windows_ok(iimg@, iimg_sq@, iimg_stride as int, y as int, stripe_w as int,
                r as int, bd as int),
            x <= stripe_w + 2,
            forall |x2: int| 0 <= x2 < x
                ==> #[trigger] af@[x2] as int == sgr_a(iimg@, iimg_sq@, iimg_stride as int,
                        x2, y as int, r as int, s, bd as int)
                    && bf@[x2] as int == sgr_b(iimg@, iimg_sq@, iimg_stride as int,
                        x2, y as int, r as int, s, bd as int),
            forall |x2: int| x <= x2 < af@.len() ==> #[trigger] af@[x2] == old(af)@[x2],
            forall |x2: int| x <= x2 < bf@.len() ==> #[trigger] bf@[x2] == old(bf)@[x2],
        decreases stripe_w + 2 - x,
    {
        proof {
            vstd::arithmetic::power2::lemma2_to64();
            assert(pow2(bd as nat) <= 4096) by {
                if bd < 12 {
                    vstd::arithmetic::power2::lemma_pow2_strictly_increases(bd as nat, 12);
                }
            }
            assert(0 <= isum(iimg@, iimg_stride as int, x as int, y as int, 2 * (r as int) + 1)
                <= (2 * (r as int) + 1) * (2 * (r as int) + 1) * (pow2(bd as nat) - 1));
            assert(0 <= isum(iimg_sq@, iimg_stride as int, x as int, y as int, 2 * (r as int) + 1)
                <= (2 * (r as int) + 1) * (2 * (r as int) + 1) * (pow2(bd as nat) - 1)
                    * (pow2(bd as nat) - 1));
            assert(d as int == 2 * (r as int) + 1);
            assert((2 * (r as int) + 1) * (2 * (r as int) + 1) * (pow2(bd as nat) - 1)
                <= 25int * 4095) by (nonlinear_arith)
                requires (r == 1 || r == 2) && pow2(bd as nat) <= 4096;
            assert((2 * (r as int) + 1) * (2 * (r as int) + 1) * (pow2(bd as nat) - 1)
                * (pow2(bd as nat) - 1) <= 25int * 4095 * 4095) by (nonlinear_arith)
                requires (r == 1 || r == 2) && pow2(bd as nat) <= 4096;
        }
        let sum: u32 = get_integral_square(iimg, iimg_stride, x, y, d);
        let ssq: u32 = get_integral_square(iimg_sq, iimg_stride, x, y, d);
        let scaled_sum: u64 = if bdm8 == 0 {
            sum as u64
        } else {
            crate::util::round_shift64(sum as i64, bdm8) as u64
        };
        let scaled_ssq: u64 = if bdm8 == 0 {
            ssq as u64
        } else {
            crate::util::round_shift64(ssq as i64, 2 * bdm8) as u64
        };
        proof {
            lemma_rshift_nonneg_le(sum as int, bdm8 as nat);
            lemma_rshift_nonneg_le(ssq as int, (2 * bdm8) as nat);
            assert(scaled_sum <= 102375);
            assert(scaled_ssq <= 419225625);
            assert(d * d <= 25) by (nonlinear_arith)
                requires d <= 5;
        }
        let n: u64 = (d * d) as u64;
        proof {
            crate::util::lemma_mul_abs_bound(scaled_ssq as int, n as int, 0x19000000, 25);
            crate::util::lemma_mul_abs_bound(scaled_sum as int, scaled_sum as int, 102375, 102375);
        }
        let psub: i64 = (scaled_ssq * n) as i64 - (scaled_sum * scaled_sum) as i64;
        let p: u64 = if psub < 0 { 0 } else { psub as u64 };
        proof {
            crate::util::lemma_mul_abs_bound(p as int, s as int, 0x300000000, 0x1_0000_0000);
        }
        let znum: u128 = (p as u128) * (s as u128) + 0x80000;
        let zshift: u128 = znum >> 20u128;
        proof {
            vstd::bits::lemma_u128_shr_is_div(znum, 20);
            vstd::arithmetic::power2::lemma2_to64();
            vstd::arithmetic::div_mod::lemma_div_is_ordered(0, znum as int, pow2(20) as int);
            assert(zshift as int == rshift((p * s) as int, 20));
        }
        let z: u64 = if zshift > 255 { 255 } else { zshift as u64 };
        let a: u32 = x_by_xplus1_at(z as usize);
        proof {
            crate::util::lemma_mul_abs_bound(256 - a as int, sum as int, 255, 102375);
            crate::util::lemma_mul_abs_bound((256 - a as int) * (sum as int), one_over_n as int,
                26105625, 455);
        }
        let bnum: u64 = (256 - a as u64) * (sum as u64) * one_over_n;
        let b: u64 = crate::util::round_shift64(bnum as i64, 12) as u64;
        proof {
            lemma_rshift_range(bnum as int, 12, 0, 11878059375);
        }
        let ghost af_pre = af@;
        let ghost bf_pre = bf@;
        vset32(af, x, a);
        vset32(bf, x, b as u32);
        proof {
            assert(af@[x as int] as int == sgr_a(iimg@, iimg_sq@, iimg_stride as int,
                x as int, y as int, r as int, s, bd as int));
            assert(bf@[x as int] as int == sgr_b(iimg@, iimg_sq@, iimg_stride as int,
                x as int, y as int, r as int, s, bd as int));
        }
        x = x + 1;
    }
}

/// Compute the radius-1 blend weights and linear terms of one stripe row.
pub fn sgrproj_box_ab_r1(
    af: &mut Vec<u32>,
    bf: &mut Vec<u32>,
    iimg: &Vec<u32>,
    iimg_sq: &Vec<u32>,
    iimg_stride: usize,
    y: usize,
    stripe_w: usize,
    s: u32,
    bd: usize,
)
    requires
        8 <= bd <= 12,
        iimg_stride >= 1,
        stripe_w + 2 <= old(af)@.len(),
        stripe_w + 2 <= old(bf)@.len(),
        (y + 3) * iimg_stride + stripe_w + 4 < iimg@.len(),
        (y + 3) * iimg_stride + stripe_w + 4 < iimg_sq@.len(),
        sgr_windows_ok(iimg@, iimg_sq@, iimg_stride as int, y as int, stripe_w as int, 1, bd as int),
    ensures
        final(af)@.len() == old(af)@.len(),
        final(bf)@.len() == old(bf)@.len(),
        forall |x: int| 0 <= x < stripe_w + 2
            ==> #[trigger] final(af)@[x] as int == sgr_a(iimg@, iimg_sq@, iimg_stride as int,
                    x, y as int, 1, s, bd as int)
                && final(bf)@[x] as int == sgr_b(iimg@, iimg_sq@, iimg_stride as int,
                    x, y as int, 1, s, bd as int),
        forall |x: int| stripe_w + 2 <= x < old(af)@.len()
            ==> #[trigger] final(af)@[x] == old(af)@[x],
        forall |x: int| stripe_w + 2 <= x < old(bf)@.len()
            ==> #[trigger] final(bf)@[x] == old(bf)@[x],
{
    sgrproj_box_ab(1, af, bf, iimg, iimg_sq, iimg_stride, y, stripe_w, s, bd);
}

/// Compute the radius-2 blend weights and linear terms of one stripe row.
pub fn sgrproj_box_ab_r2(
    af: &mut Vec<u32>,
    bf: &mut Vec<u32>,
    iimg: &Vec<u32>,
    iimg_sq: &Vec<u32>,
    iimg_stride: usize,
    y: usize,
    stripe_w: usize,
    s: u32,
    bd: usize,
)
    requires
        8 <= bd <= 12,
        iimg_stride >= 1,
        stripe_w + 2 <= old(af)@.len(),
        stripe_w + 2 <= old(bf)@.len(),
        (y + 5) * iimg_stride + stripe_w + 6 < iimg@.len(),
        (y + 5) * iimg_stride + stripe_w + 6 < iimg_sq@.len(),
        sgr_windows_ok(iimg@, iimg_sq@, iimg_stride as int, y as int, stripe_w as int, 2, bd as int),
    ensures
        final(af)@.len() == old(af)@.len(),
        final(bf)@.len() == old(bf)@.len(),
        forall |x: int| 0 <= x < stripe_w + 2
            ==> #[trigger] final(af)@[x] as int == sgr_a(iimg@, iimg_sq@, iimg_stride as int,
                    x, y as int, 2, s, bd as int)
                && final(bf)@[x] as int == sgr_b(iimg@, iimg_sq@, iimg_stride as int,
                    x, y as int, 2, s, bd as int),
        forall |x: int| stripe_w + 2 <= x < old(af)@.len()
            ==> #[trigger] final(af)@[x] == old(af)@[x],
        forall |x: int| stripe_w + 2 <= x < old(bf)@.len()
            ==> #[trigger] final(bf)@[x] == old(bf)@[x],
{
    sgrproj_box_ab(2, af, bf, iimg, iimg_sq, iimg_stride, y, stripe_w, s, bd);
}


/// The radius-0 pass-through: each filtered sample lifted to the restoration
/// precision by a pure shift.
pub fn sgrproj_box_f_r0(f: &mut Vec<u32>, y: usize, w: usize, cdeffed: &PlaneSlice<'_>)
    requires
        cdeffed.plane.wf(),
        cdeffed.in_range(),
        w <= 0x1000_0000,
        y <= 0x1000_0000,
        0 <= cdeffed.abs_x(0),
        cdeffed.abs_x(w as int) <= cdeffed.plane.cfg.stride,
        0 <= cdeffed.abs_y(y as int) < cdeffed.plane.cfg.alloc_height,
        w <= old(f)@.len(),
    ensures
        final(f)@.len() == old(f)@.len(),
        forall |x: int| 0 <= x < w
            ==> #[trigger] final(f)@[x] as int
                == cdeffed.plane.sample(cdeffed.abs_x(x), cdeffed.abs_y(y as int)) * 16,
        forall |x: int| w <= x < old(f)@.len() ==> #[trigger] final(f)@[x] == old(f)@[x],
{
    let sx: usize = (cdeffed.x as i64 + cdeffed.plane.cfg.xorigin as i64) as usize;
    let sy: usize = (cdeffed.y as i64 + y as i64 + cdeffed.plane.cfg.yorigin as i64) as usize;
    let flen: usize = f.len();
    let mut x: usize = 0;
    while x < w
        invariant
            cdeffed.plane.wf(),
            cdeffed.in_range(),
            w <= 0x1000_0000,
            y <= 0x1000_0000,
            0 <= cdeffed.abs_x(0),
            cdeffed.abs_x(w as int) <= cdeffed.plane.cfg.stride,
            0 <= cdeffed.abs_y(y as int) < cdeffed.plane.cfg.alloc_height,
            sx as int == cdeffed.abs_x(0),
            sy as int == cdeffed.abs_y(y as int),
            f@.len() == old(f)@.len(),
            f@.len() == flen,
            w <= f@.len(),
            x <= w,
            forall |x2: int| 0 <= x2 < x
                ==> #[trigger] f@[x2] as int
                    == cdeffed.plane.sample(cdeffed.abs_x(x2), cdeffed.abs_y(y as int)) * 16,
            forall |x2: int| x <= x2 < f@.len() ==> #[trigger] f@[x2] == old(f)@[x2],
        decreases w - x,
    {
        let v = cdeffed.plane.get(sx + x, sy);
        vset32(f, x, (v as u32) * 16);
        x = x + 1;
    }
}

/// The `{3, 4, 3}` tent weights of the radius-1 filter: corner entries of
/// the three stripe rows weighted 3, the cross entries weighted 4.
pub open spec fn sgr_f1_weights(a0: Seq<u32>, a1: Seq<u32>, a2: Seq<u32>, x: int) -> int {
    3 * (a0[x] + a2[x] + a0[x + 2] + a2[x + 2])
        + 4 * (a1[x] + a1[x + 2] + a0[x + 1] + a1[x + 1] + a2[x + 1])
}

/// Every entry of a weight buffer prefix is at most `m`.
pub open spec fn entries_below(v: Seq<u32>, n: int, m: int) -> bool {
    forall |x: int| 0 <= x < n ==> #[trigger] v[x] <= m
}

/// One output row of the radius-1 self-guided filter: the `{3, 4, 3}` tent
/// over the neighbouring blend weights applied to the filtered samples, plus
/// the matching tent over the linear terms, rounded to restoration precision.
#[verifier::rlimit(100)]
pub fn sgrproj_box_f_r1(
    af0: &Vec<u32>, af1: &Vec<u32>, af2: &Vec<u32>,
    bf0: &Vec<u32>, bf1: &Vec<u32>, bf2: &Vec<u32>,
    f: &mut Vec<u32>, y: usize, w: usize, cdeffed: &PlaneSlice<'_>,
)
    requires
        cdeffed.plane.wf(),
        cdeffed.in_range(),
        w <= 0x1000_0000,
        y <= 0x1000_0000,
        0 <= cdeffed.abs_x(0),
        cdeffed.abs_x(w as int) <= cdeffed.plane.cfg.stride,
        0 <= cdeffed.abs_y(y as int) < cdeffed.plane.cfg.alloc_height,
        w <= old(f)@.len(),
        w + 2 <= af0@.len() && w + 2 <= af1@.len() && w + 2 <= af2@.len(),
        w + 2 <= bf0@.len() && w + 2 <= bf1@.len() && w + 2 <= bf2@.len(),
        entries_below(af0@, w + 2, 256),
        entries_below(af1@, w + 2, 256),
        entries_below(af2@, w + 2, 256),
        entries_below(bf0@, w + 2, 0x400000),
        entries_below(bf1@, w + 2, 0x400000),
        entries_below(bf2@, w + 2, 0x400000),
    ensures
        final(f)@.len() == old(f)@.len(),
        forall |x: int| 0 <= x < w
            ==> #[trigger] final(f)@[x] as int == rshift(
                sgr_f1_weights(af0@, af1@, af2@, x)
                    * cdeffed.plane.sample(cdeffed.abs_x(x), cdeffed.abs_y(y as int))
                    + sgr_f1_weights(bf0@, bf1@, bf2@, x),
                9),
        forall |x: int| w <= x < old(f)@.len() ==> #[trigger] final(f)@[x] == old(f)@[x],
{
    let sx: usize = (cdeffed.x as i64 + cdeffed.plane.cfg.xorigin as i64) as usize;
    let sy: usize = (cdeffed.y as i64 + y as i64 + cdeffed.plane.cfg.yorigin as i64) as usize;
    let flen: usize = f.len();
    let mut x: usize = 0;
    while x < w
        invariant
            cdeffed.plane.wf(),
            cdeffed.in_range(),
            w <= 0x1000_0000,
            y <= 0x1000_0000,
            0 <= cdeffed.abs_x(0),
            cdeffed.abs_x(w as int) <= cdeffed.plane.cfg.stride,
            0 <= cdeffed.abs_y(y as int) < cdeffed.plane.cfg.alloc_height,
            sx as int == cdeffed.abs_x(0),
            sy as int == cdeffed.abs_y(y as int),
            f@.len() == old(f)@.len(),
            f@.len() == flen,
            w <= f@.len(),
            w + 2 <= af0@.len() && w + 2 <= af1@.len() && w + 2 <= af2@.len(),
            w + 2 <= bf0@.len() && w + 2 <= bf1@.len() && w + 2 <= bf2@.len(),
            entries_below(af0@, w + 2, 256),
            entries_below(af1@, w + 2, 256),
            entries_below(af2@, w + 2, 256),
            entries_below(bf0@, w + 2, 0x400000),
            entries_below(bf1@, w + 2, 0x400000),
            entries_below(bf2@, w + 2, 0x400000),
            x <= w,
            forall |x2: int| 0 <= x2 < x
                ==> #[trigger] f@[x2] as int == rshift(
                    sgr_f1_weights(af0@, af1@, af2@, x2)
                        * cdeffed.plane.sample(cdeffed.abs_x(x2), cdeffed.abs_y(y as int))
                        + sgr_f1_weights(bf0@, bf1@, bf2@, x2),
                    9),
            forall |x2: int| x <= x2 < f@.len() ==> #[trigger] f@[x2] == old(f)@[x2],
        decreases w - x,
    {
        let a: u64 = 3 * (af0[x] as u64 + af2[x] as u64 + af0[x + 2] as u64 + af2[x + 2] as u64)
            + 4 * (af1[x] as u64 + af1[x + 2] as u64 + af0[x + 1] as u64 + af1[x + 1] as u64
                + af2[x + 1] as u64);
        let b: u64 = 3 * (bf0[x] as u64 + bf2[x] as u64 + bf0[x + 2] as u64 + bf2[x + 2] as u64)
            + 4 * (bf1[x] as u64 + bf1[x + 2] as u64 + bf0[x + 1] as u64 + bf1[x + 1] as u64
                + bf2[x + 1] as u64);
        let px = cdeffed.plane.get(sx + x, sy);
        proof {
            assert(a as int == sgr_f1_weights(af0@, af1@, af2@, x as int));
            assert(b as int == sgr_f1_weights(bf0@, bf1@, bf2@, x as int));
            assert(px == cdeffed.plane.sample(cdeffed.abs_x(x as int), cdeffed.abs_y(y as int)));
            crate::util::lemma_mul_abs_bound(a as int, px as int, 8192, 0x10000);
        }
        let v: u64 = a * (px as u64) + b;
        let out: u64 = crate::util::round_shift64(v as i64, 9) as u64;
        proof {
            vstd::arithmetic::power2::lemma2_to64();
            lemma_rshift_range(v as int, 9, 0, 0x30000000);
        }
        vset32(f, x, out as u32);
        x = x + 1;
    }
}

/// The `{5, 6, 5}` weights of one radius-2 stripe row.
pub open spec fn sgr_f2_weights(a: Seq<u32>, x: int) -> int {
    5 * (a[x] + a[x + 2]) + 6 * a[x + 1]
}

/// Two output rows of the radius-2 self-guided filter: the even row combines
/// the `{5, 6, 5}` sums of both stripe rows at full precision, the odd row
/// uses the second stripe row alone with one bit less rounding.
#[verifier::rlimit(100)]
pub fn sgrproj_box_f_r2(
    af0: &Vec<u32>, af1: &Vec<u32>,
    bf0: &Vec<u32>, bf1: &Vec<u32>,
    f0: &mut Vec<u32>, f1: &mut Vec<u32>,
    y: usize, w: usize, cdeffed: &PlaneSlice<'_>,
)
    requires
        cdeffed.plane.wf(),
        cdeffed.in_range(),
        w <= 0x1000_0000,
        y + 1 <= 0x1000_0000,
        0 <= cdeffed.abs_x(0),
        cdeffed.abs_x(w as int) <= cdeffed.plane.cfg.stride,
        0 <= cdeffed.abs_y(y as int),
        cdeffed.abs_y(y as int + 1) < cdeffed.plane.cfg.alloc_height,
        w <= old(f0)@.len(),
        w <= old(f1)@.len(),
        w + 2 <= af0@.len() && w + 2 <= af1@.len(),
        w + 2 <= bf0@.len() && w + 2 <= bf1@.len(),
        entries_below(af0@, w + 2, 256),
        entries_below(af1@, w + 2, 256),
        entries_below(bf0@, w + 2, 0x400000),
        entries_below(bf1@, w + 2, 0x400000),
    ensures
        final(f0)@.len() == old(f0)@.len(),
        final(f1)@.len() == old(f1)@.len(),
        forall |x: int| 0 <= x < w
            ==> #[trigger] final(f0)@[x] as int == rshift(
                (sgr_f2_weights(af0@, x) + sgr_f2_weights(af1@, x))
                    * cdeffed.plane.sample(cdeffed.abs_x(x), cdeffed.abs_y(y as int))
                    + sgr_f2_weights(bf0@, x) + sgr_f2_weights(bf1@, x),
                9),
        forall |x: int| 0 <= x < w
            ==> #[trigger] final(f1)@[x] as int == rshift(
                sgr_f2_weights(af1@, x)
                    * cdeffed.plane.sample(cdeffed.abs_x(x), cdeffed.abs_y(y as int + 1))
                    + sgr_f2_weights(bf1@, x),
                8),
        forall |x: int| w <= x < old(f0)@.len() ==> #[trigger] final(f0)@[x] == old(f0)@[x],
        forall |x: int| w <= x < old(f1)@.len() ==> #[trigger] final(f1)@[x] == old(f1)@[x],
{
    let sx: usize = (cdeffed.x as i64 + cdeffed.plane.cfg.xorigin as i64) as usize;
    let sy: usize = (cdeffed.y as i64 + y as i64 + cdeffed.plane.cfg.yorigin as i64) as usize;
    let f0len: usize = f0.len();
    let f1len: usize = f1.len();
    let mut x: usize = 0;
    while x < w
        invariant
            cdeffed.plane.wf(),
            cdeffed.in_range(),
            w <= 0x1000_0000,
            y + 1 <= 0x1000_0000,
            0 <= cdeffed.abs_x(0),
            cdeffed.abs_x(w as int) <= cdeffed.plane.cfg.stride,
            0 <= cdeffed.abs_y(y as int),
            cdeffed.abs_y(y as int + 1) < cdeffed.plane.cfg.alloc_height,
            sx as int == cdeffed.abs_x(0),
            sy as int == cdeffed.abs_y(y as int),
            f0@.len() == old(f0)@.len() && f0@.len() == f0len,
            f1@.len() == old(f1)@.len() && f1@.len() == f1len,
            w <= f0@.len() && w <= f1@.len(),
            w + 2 <= af0@.len() && w + 2 <= af1@.len(),
            w + 2 <= bf0@.len() && w + 2 <= bf1@.len(),
            entries_below(af0@, w + 2, 256),
            entries_below(af1@, w + 2, 256),
            entries_below(bf0@, w + 2, 0x400000),
            entries_below(bf1@, w + 2, 0x400000),
            x <= w,
            forall |x2: int| 0 <= x2 < x
                ==> #[trigger] f0@[x2] as int == rshift(
                    (sgr_f2_weights(af0@, x2) + sgr_f2_weights(af1@, x2))
                        * cdeffed.plane.sample(cdeffed.abs_x(x2), cdeffed.abs_y(y as int))
                        + sgr_f2_weights(bf0@, x2) + sgr_f2_weights(bf1@, x2),
                    9),
            forall |x2: int| 0 <= x2 < x
                ==> #[trigger] f1@[x2] as int == rshift(
                    sgr_f2_weights(af1@, x2)
                        * cdeffed.plane.sample(cdeffed.abs_x(x2), cdeffed.abs_y(y as int + 1))
                        + sgr_f2_weights(bf1@, x2),
                    8),
            forall |x2: int| x <= x2 < f0@.len() ==> #[trigger] f0@[x2] == old(f0)@[x2],
            forall |x2: int| x <= x2 < f1@.len() ==> #[trigger] f1@[x2] == old(f1)@[x2],
        decreases w - x,
    {
        let a: u64 = 5 * (af0[x] as u64 + af0[x + 2] as u64) + 6 * af0[x + 1] as u64;
        let ao: u64 = 5 * (af1[x] as u64 + af1[x + 2] as u64) + 6 * af1[x + 1] as u64;
        let b: u64 = 5 * (bf0[x] as u64 + bf0[x + 2] as u64) + 6 * bf0[x + 1] as u64;
        let bo: u64 = 5 * (bf1[x] as u64 + bf1[x + 2] as u64) + 6 * bf1[x + 1] as u64;
        let px0 = cdeffed.plane.get(sx + x, sy);
        let px1 = cdeffed.plane.get(sx + x, sy + 1);
        proof {
            assert(a as int == sgr_f2_weights(af0@, x as int));
            assert(ao as int == sgr_f2_weights(af1@, x as int));
            assert(b as int == sgr_f2_weights(bf0@, x as int));
            assert(bo as int == sgr_f2_weights(bf1@, x as int));
            assert(px0 == cdeffed.plane.sample(cdeffed.abs_x(x as int), cdeffed.abs_y(y as int)));
            assert(px1 == cdeffed.plane.sample(cdeffed.abs_x(x as int), cdeffed.abs_y(y as int + 1)));
            crate::util::lemma_mul_abs_bound((a + ao) as int, px0 as int, 8192, 0x10000);
            crate::util::lemma_mul_abs_bound(ao as int, px1 as int, 4096, 0x10000);
        }
        let v0: u64 = (a + ao) * (px0 as u64) + b + bo;
        let out0: u64 = crate::util::round_shift64(v0 as i64, 9) as u64;
        let v1: u64 = ao * (px1 as u64) + bo;
        let out1: u64 = crate::util::round_shift64(v1 as i64, 8) as u64;
        proof {
            vstd::arithmetic::power2::lemma2_to64();
            lemma_rshift_range(v0 as int, 9, 0, 0x30000000);
            lemma_rshift_range(v1 as int, 8, 0, 0x30000000);
        }
        vset32(f0, x, out0 as u32);
        vset32(f1, x, out1 as u32);
        x = x + 1;
    }
}

} // verus!
