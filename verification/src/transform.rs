//! Inverse block transforms: DCT, ADST, identity, and Walsh-Hadamard
//! butterfly networks over 12-bit fixed-point weights, composed row-first
//! then column-wise, with the result added to the prediction and saturated
//! to the 8-bit sample range.

use vstd::prelude::*;
use crate::plane::Plane;
use crate::util::{rshift, fdiv2, sclamp, round_shift64, ashr, clamp, lemma_mul_abs_bound,
    lemma_rshift_range, lemma_fdiv2_range};
use vstd::arithmetic::power2::pow2;

verus! {

/// A sequence of 32-bit values as mathematical integers.
pub open spec fn iseq(s: Seq<i32>) -> Seq<int> {
    Seq::new(s.len(), |k: int| s[k] as int)
}

/// Clamp to the signed `range`-bit interval.
pub open spec fn clampv(v: int, range: nat) -> int {
    sclamp(v, -(pow2((range - 1) as nat) as int), pow2((range - 1) as nat) - 1)
}

/// The butterfly rotation primitive: a weighted sum of two values, rounded
/// down by the 12-bit weight scale.
pub open spec fn half_btf_s(w0: int, a: int, w1: int, b: int) -> int {
    rshift(w0 * a + w1 * b, 12)
}

/// The butterfly rotation primitive over machine integers.
pub fn half_btf(w0: i32, in0: i32, w1: i32, in1: i32, bit: usize) -> (r: i32)
    requires
        bit == 12,
        -4096 <= w0 <= 4096,
        -4096 <= w1 <= 4096,
        -0x200000 <= in0 <= 0x200000,
        -0x200000 <= in1 <= 0x200000,
    ensures
        r as int == half_btf_s(w0 as int, in0 as int, w1 as int, in1 as int),
        -0x400001 <= r <= 0x400001,
        (-0x80000 <= in0 <= 0x80000 && -0x80000 <= in1 <= 0x80000) ==> -0x100001 <= r <= 0x100001,
        (-0x8000 <= in0 <= 0x8000 && -0x8000 <= in1 <= 0x8000) ==> -0x10001 <= r <= 0x10001,
{
    proof {
        lemma_mul_abs_bound(w0 as int, in0 as int, 4096, 0x200000);
        lemma_mul_abs_bound(w1 as int, in1 as int, 4096, 0x200000);
    }
    let t: i64 = (w0 as i64) * (in0 as i64) + (w1 as i64) * (in1 as i64);
    let q: i64 = round_shift64(t, 12);
    proof {
        vstd::arithmetic::power2::lemma2_to64();
        lemma_rshift_range(t as int, 12, -0x4_0000_0000, 0x4_0000_0000);
        if -0x80000 <= in0 <= 0x80000 && -0x80000 <= in1 <= 0x80000 {
            lemma_mul_abs_bound(w0 as int, in0 as int, 4096, 0x80000);
            lemma_mul_abs_bound(w1 as int, in1 as int, 4096, 0x80000);
            lemma_rshift_range(t as int, 12, -0x1_0000_0000, 0x1_0000_0000);
        }
        if -0x8000 <= in0 <= 0x8000 && -0x8000 <= in1 <= 0x8000 {
            lemma_mul_abs_bound(w0 as int, in0 as int, 4096, 0x8000);
            lemma_mul_abs_bound(w1 as int, in1 as int, 4096, 0x8000);
            lemma_rshift_range(t as int, 12, -0x1000_0000, 0x1000_0000);
        }
    }
    q as i32
}

/// Clamp a value to the signed `range`-bit interval of the transform stage.
pub fn clamp_value(val: i32, range: usize) -> (r: i32)
    requires
        8 <= range <= 20,
    ensures
        r as int == clampv(val as int, range as nat),
        -0x80000 <= r <= 0x80000,
{
    proof {
        vstd::arithmetic::power2::lemma2_to64();
        if range < 20 {
            vstd::arithmetic::power2::lemma_pow2_strictly_increases((range - 1) as nat, 19);
        }
        vstd::bits::lemma_u64_shl_is_mul(1u64, (range - 1) as u64);
    }
    let m: u64 = 1u64 << ((range - 1) as u64);
    let mn: i32 = -(m as i32);
    let mx: i32 = (m as i32) - 1;
    clamp(val, mn, mx)
}


/// The 4-point inverse asymmetric discrete sine transform: sine-weighted
/// combinations (weights scaled by `1 << 12`) rounded once at the end,
/// without stage clamping.
#[verifier::opaque]
pub open spec fn spec_iadst4(s: Seq<int>) -> Seq<int> {
    let x0 = s[0];
    let x1 = s[1];
    let x2 = s[2];
    let x3 = s[3];
    let s0 = 1321 * x0;
    let s1 = 2482 * x0;
    let s2 = 3344 * x1;
    let s3 = 3803 * x2;
    let s4 = 1321 * x2;
    let s5 = 2482 * x3;
    let s6 = 3803 * x3;
    let s7 = x0 - x2 + x3;
    let a0 = s0 + s3 + s5;
    let a1 = s1 - s4 - s6;
    let a2 = 3344 * s7;
    let b0 = a0 + s2;
    let b1 = a1 + s2;
    let b3 = a0 + a1 - s2;
    seq![rshift(b0, 12), rshift(b1, 12), rshift(a2, 12), rshift(b3, 12)]
}

fn iadst4(input: &Vec<i32>, range: usize) -> (r: Vec<i32>)
    requires
        input@.len() == 4,
        16 <= range <= 20,
        forall |k: int| 0 <= k < 4 ==> -0x200000 <= #[trigger] input@[k] <= 0x200000,
    ensures
        r@.len() == 4,
        forall |k: int| 0 <= k < 4 ==> #[trigger] r@[k] as int == spec_iadst4(iseq(input@))[k],
        forall |k: int| 0 <= k < 4 ==> -0xA00000 <= #[trigger] r@[k] <= 0xA00000,
        (forall |k: int| 0 <= k < 4 ==> -0x10000 <= #[trigger] input@[k] <= 0x10000)
            ==> forall |k: int| 0 <= k < 4 ==> -0x200000 <= #[trigger] r@[k] <= 0x200000,
{
    proof { reveal(spec_iadst4); }
    let x0: i64 = input[0] as i64;
    let x1: i64 = input[1] as i64;
    let x2: i64 = input[2] as i64;
    let x3: i64 = input[3] as i64;
    let s0: i64 = 1321 * x0;
    let s1: i64 = 2482 * x0;
    let s2: i64 = 3344 * x1;
    let s3: i64 = 3803 * x2;
    let s4: i64 = 1321 * x2;
    let s5: i64 = 2482 * x3;
    let s6: i64 = 3803 * x3;
    let s7: i64 = x0 - x2 + x3;
    let a0: i64 = s0 + s3 + s5;
    let a1: i64 = s1 - s4 - s6;
    let a2: i64 = 3344 * s7;
    let b0: i64 = a0 + s2;
    let b1: i64 = a1 + s2;
    let b3: i64 = a0 + a1 - s2;
    let o0 = round_shift64(b0, 12);
    let o1 = round_shift64(b1, 12);
    let o2 = round_shift64(a2, 12);
    let o3 = round_shift64(b3, 12);
    proof {
        vstd::arithmetic::power2::lemma2_to64();
        lemma_rshift_range(b0 as int, 12, -0x560000000, 0x560000000);
        lemma_rshift_range(b1 as int, 12, -0x560000000, 0x560000000);
        lemma_rshift_range(a2 as int, 12, -0x560000000, 0x560000000);
        lemma_rshift_range(b3 as int, 12, -0x560000000, 0x560000000);
        if forall |k: int| 0 <= k < 4 ==> -0x10000 <= #[trigger] input@[k] <= 0x10000 {
            assert(-0x10000 <= input@[0] <= 0x10000);
            assert(-0x10000 <= input@[1] <= 0x10000);
            assert(-0x10000 <= input@[2] <= 0x10000);
            assert(-0x10000 <= input@[3] <= 0x10000);
            lemma_rshift_range(b0 as int, 12, -0x2B000000, 0x2B000000);
            lemma_rshift_range(b1 as int, 12, -0x2B000000, 0x2B000000);
            lemma_rshift_range(a2 as int, 12, -0x2B000000, 0x2B000000);
            lemma_rshift_range(b3 as int, 12, -0x2B000000, 0x2B000000);
        }
    }
    let mut r: Vec<i32> = Vec::new();
    r.push(o0 as i32);
    r.push(o1 as i32);
    r.push(o2 as i32);
    r.push(o3 as i32);
    r
}

/// The 4-point inverse Walsh-Hadamard transform: additions, subtractions and
/// one halving, exact for losslessly coded blocks.
#[verifier::opaque]
pub open spec fn spec_iwht4(s: Seq<int>) -> Seq<int> {
    let x0 = s[0];
    let x1 = s[1];
    let x2 = s[2];
    let x3 = s[3];
    let s0 = x0 + x1;
    let s2 = x2 - x3;
    let s4 = fdiv2(s0 - s2, 1);
    let s3 = s4 - x3;
    let s1 = s4 - x1;
    seq![s0 - s3, s3, s1, s2 + s1]
}

fn iwht4(input: &Vec<i32>, range: usize) -> (r: Vec<i32>)
    requires
        input@.len() == 4,
        16 <= range <= 20,
        forall |k: int| 0 <= k < 4 ==> -0x200000 <= #[trigger] input@[k] <= 0x200000,
    ensures
        r@.len() == 4,
        forall |k: int| 0 <= k < 4 ==> #[trigger] r@[k] as int == spec_iwht4(iseq(input@))[k],
        forall |k: int| 0 <= k < 4 ==> -0xA00000 <= #[trigger] r@[k] <= 0xA00000,
        (forall |k: int| 0 <= k < 4 ==> -0x10000 <= #[trigger] input@[k] <= 0x10000)
            ==> forall |k: int| 0 <= k < 4 ==> -0x200000 <= #[trigger] r@[k] <= 0x200000,
{
    proof { reveal(spec_iwht4); }
    let x0: i32 = input[0];
    let x1: i32 = input[1];
    let x2: i32 = input[2];
    let x3: i32 = input[3];
    let s0: i32 = x0 + x1;
    let s2: i32 = x2 - x3;
    let s4: i32 = ashr(s0 - s2, 1);
    proof {
        vstd::arithmetic::power2::lemma2_to64();
        lemma_fdiv2_range((s0 - s2) as int, 1, -0x800000, 0x800000);
    }
    let s3: i32 = s4 - x3;
    let s1: i32 = s4 - x1;
    proof {
        if forall |k: int| 0 <= k < 4 ==> -0x10000 <= #[trigger] input@[k] <= 0x10000 {
            assert(-0x10000 <= input@[0] <= 0x10000);
            assert(-0x10000 <= input@[1] <= 0x10000);
            assert(-0x10000 <= input@[2] <= 0x10000);
            assert(-0x10000 <= input@[3] <= 0x10000);
            lemma_fdiv2_range((s0 - s2) as int, 1, -0x40000, 0x40000);
        }
    }
    let mut r: Vec<i32> = Vec::new();
    r.push(s0 - s3);
    r.push(s3);
    r.push(s1);
    r.push(s2 + s1);
    r
}

/// The 4-point identity transform: scale by the fixed-point square root of
/// two.
#[verifier::opaque]
pub open spec fn spec_iidentity4(s: Seq<int>) -> Seq<int> {
    seq![
        rshift(5793 * s[0], 12),
        rshift(5793 * s[1], 12),
        rshift(5793 * s[2], 12),
        rshift(5793 * s[3], 12),
    ]
}

fn iidentity4(input: &Vec<i32>, range: usize) -> (r: Vec<i32>)
    requires
        input@.len() == 4,
        16 <= range <= 20,
        forall |k: int| 0 <= k < 4 ==> -0x200000 <= #[trigger] input@[k] <= 0x200000,
    ensures
        r@.len() == 4,
        forall |k: int| 0 <= k < 4 ==> #[trigger] r@[k] as int == spec_iidentity4(iseq(input@))[k],
        forall |k: int| 0 <= k < 4 ==> -0xA00000 <= #[trigger] r@[k] <= 0xA00000,
        (forall |k: int| 0 <= k < 4 ==> -0x10000 <= #[trigger] input@[k] <= 0x10000)
            ==> forall |k: int| 0 <= k < 4 ==> -0x200000 <= #[trigger] r@[k] <= 0x200000,
{
    proof { reveal(spec_iidentity4); }
    let mut r: Vec<i32> = Vec::new();
    let mut k: usize = 0;
    while k < 4
        invariant
            input@.len() == 4,
            forall |k2: int| 0 <= k2 < 4 ==> -0x200000 <= #[trigger] input@[k2] <= 0x200000,
            k <= 4,
            r@.len() == k,
            forall |k2: int| 0 <= k2 < k ==> #[trigger] r@[k2] as int == rshift(5793 * (input@[k2] as int), 12),
            forall |k2: int| 0 <= k2 < k ==> -0xA00000 <= #[trigger] r@[k2] <= 0xA00000,
            (forall |k2: int| 0 <= k2 < 4 ==> -0x10000 <= #[trigger] input@[k2] <= 0x10000)
                ==> forall |k2: int| 0 <= k2 < k ==> -0x200000 <= #[trigger] r@[k2] <= 0x200000,
        decreases 4 - k,
    {
        let t: i64 = 5793 * (input[k] as i64);
        let o = round_shift64(t, 12);
        proof {
            vstd::arithmetic::power2::lemma2_to64();
            lemma_rshift_range(t as int, 12, -0x300000000, 0x300000000);
            if forall |k2: int| 0 <= k2 < 4 ==> -0x10000 <= #[trigger] input@[k2] <= 0x10000 {
                assert(-0x10000 <= input@[k as int] <= 0x10000);
                lemma_rshift_range(t as int, 12, -0x17000000, 0x17000000);
            }
        }
        r.push(o as i32);
        k = k + 1;
    }
    r
}

/// The 8-point identity transform: scale by two.
#[verifier::opaque]
pub open spec fn spec_iidentity8(s: Seq<int>) -> Seq<int> {
    seq![2 * s[0], 2 * s[1], 2 * s[2], 2 * s[3], 2 * s[4], 2 * s[5], 2 * s[6], 2 * s[7]]
}

fn iidentity8(input: &Vec<i32>, range: usize) -> (r: Vec<i32>)
    requires
        input@.len() == 8,
        16 <= range <= 20,
        forall |k: int| 0 <= k < 8 ==> -0x200000 <= #[trigger] input@[k] <= 0x200000,
    ensures
        r@.len() == 8,
        forall |k: int| 0 <= k < 8 ==> #[trigger] r@[k] as int == spec_iidentity8(iseq(input@))[k],
        forall |k: int| 0 <= k < 8 ==> -0xA00000 <= #[trigger] r@[k] <= 0xA00000,
        (forall |k: int| 0 <= k < 8 ==> -0x10000 <= #[trigger] input@[k] <= 0x10000)
            ==> forall |k: int| 0 <= k < 8 ==> -0x200000 <= #[trigger] r@[k] <= 0x200000,
{
    proof { reveal(spec_iidentity8); }
    let mut r: Vec<i32> = Vec::new();
    let mut k: usize = 0;
    while k < 8
        invariant
            input@.len() == 8,
            forall |k2: int| 0 <= k2 < 8 ==> -0x200000 <= #[trigger] input@[k2] <= 0x200000,
            k <= 8,
            r@.len() == k,
            forall |k2: int| 0 <= k2 < k ==> #[trigger] r@[k2] as int == 2 * (input@[k2] as int),
            forall |k2: int| 0 <= k2 < k ==> -0xA00000 <= #[trigger] r@[k2] <= 0xA00000,
            (forall |k2: int| 0 <= k2 < 8 ==> -0x10000 <= #[trigger] input@[k2] <= 0x10000)
                ==> forall |k2: int| 0 <= k2 < k ==> -0x200000 <= #[trigger] r@[k2] <= 0x200000,
        decreases 8 - k,
    {
        proof {
            if forall |k2: int| 0 <= k2 < 8 ==> -0x10000 <= #[trigger] input@[k2] <= 0x10000 {
                assert(-0x10000 <= input@[k as int] <= 0x10000);
            }
        }
        r.push(2 * input[k]);
        k = k + 1;
    }
    r
}

/// The 16-point identity transform: scale by twice the fixed-point square
/// root of two.
#[verifier::opaque]
pub open spec fn spec_iidentity16(s: Seq<int>) -> Seq<int> {
    Seq::new(16, |k: int| rshift(5793 * 2 * s[k], 12))
}

fn iidentity16(input: &Vec<i32>, range: usize) -> (r: Vec<i32>)
    requires
        input@.len() == 16,
        16 <= range <= 20,
        forall |k: int| 0 <= k < 16 ==> -0x200000 <= #[trigger] input@[k] <= 0x200000,
    ensures
        r@.len() == 16,
        forall |k: int| 0 <= k < 16 ==> #[trigger] r@[k] as int == spec_iidentity16(iseq(input@))[k],
        forall |k: int| 0 <= k < 16 ==> -0xA00000 <= #[trigger] r@[k] <= 0xA00000,
        (forall |k: int| 0 <= k < 16 ==> -0x10000 <= #[trigger] input@[k] <= 0x10000)
            ==> forall |k: int| 0 <= k < 16 ==> -0x200000 <= #[trigger] r@[k] <= 0x200000,
{
    proof { reveal(spec_iidentity16); }
    let mut r: Vec<i32> = Vec::new();
    let mut k: usize = 0;
    while k < 16
        invariant
            input@.len() == 16,
            forall |k2: int| 0 <= k2 < 16 ==> -0x200000 <= #[trigger] input@[k2] <= 0x200000,
            k <= 16,
            r@.len() == k,
            forall |k2: int| 0 <= k2 < k ==> #[trigger] r@[k2] as int == rshift(5793 * 2 * (input@[k2] as int), 12),
            forall |k2: int| 0 <= k2 < k ==> -0xA00000 <= #[trigger] r@[k2] <= 0xA00000,
            (forall |k2: int| 0 <= k2 < 16 ==> -0x10000 <= #[trigger] input@[k2] <= 0x10000)
                ==> forall |k2: int| 0 <= k2 < k ==> -0x200000 <= #[trigger] r@[k2] <= 0x200000,
        decreases 16 - k,
    {
        let t: i64 = 11586 * (input[k] as i64);
        let o = round_shift64(t, 12);
        proof {
            vstd::arithmetic::power2::lemma2_to64();
            assert(11586 * (input@[k as int] as int) == 5793 * 2 * (input@[k as int] as int));
            lemma_rshift_range(t as int, 12, -0x600000000, 0x600000000);
            if forall |k2: int| 0 <= k2 < 16 ==> -0x10000 <= #[trigger] input@[k2] <= 0x10000 {
                assert(-0x10000 <= input@[k as int] <= 0x10000);
                lemma_rshift_range(t as int, 12, -0x2E000000, 0x2E000000);
            }
        }
        r.push(o as i32);
        k = k + 1;
    }
    r
}

/// The 4-point butterfly network, one stage per binding; every
/// combination is clamped to the signed `range`-bit interval right after
/// it is formed. The literal weights are the 12-bit fixed-point cosine
/// table entries.
#[verifier::opaque]
pub open spec fn spec_idct4(s: Seq<int>, range: nat) -> Seq<int> {
    let x0 = s[0];
    let x1 = s[1];
    let x2 = s[2];
    let x3 = s[3];
    let w_a0 = half_btf_s(2896, x0, 2896, x2);
    let w_a1 = half_btf_s(2896, x0, -2896, x2);
    let w_a2 = half_btf_s(1567, x1, -3784, x3);
    let w_a3 = half_btf_s(3784, x1, 1567, x3);
    let w_o0 = clampv(w_a0 + w_a3, range);
    let w_o1 = clampv(w_a1 + w_a2, range);
    let w_o2 = clampv(w_a1 - w_a2, range);
    let w_o3 = clampv(w_a0 - w_a3, range);
    seq![w_o0, w_o1, w_o2, w_o3]
}

fn idct4(input: &Vec<i32>, range: usize) -> (r: Vec<i32>)
    requires
        input@.len() == 4,
        16 <= range <= 20,
        forall |k: int| 0 <= k < 4 ==> -0x200000 <= #[trigger] input@[k] <= 0x200000,
    ensures
        r@.len() == 4,
        forall |k: int| 0 <= k < 4 ==> #[trigger] r@[k] as int == spec_idct4(iseq(input@), range as nat)[k],
        forall |k: int| 0 <= k < 4 ==> -0xA00000 <= #[trigger] r@[k] <= 0xA00000,
        forall |k: int| 0 <= k < 4 ==> -0x200000 <= #[trigger] r@[k] <= 0x200000,
{
    proof { reveal(spec_idct4); }
    let x0: i32 = input[0];
    let x1: i32 = input[1];
    let x2: i32 = input[2];
    let x3: i32 = input[3];
    let w_a0: i32 = half_btf(2896, x0, 2896, x2, 12);
    let w_a1: i32 = half_btf(2896, x0, -2896, x2, 12);
    let w_a2: i32 = half_btf(1567, x1, -3784, x3, 12);
    let w_a3: i32 = half_btf(3784, x1, 1567, x3, 12);
    let w_o0: i32 = clamp_value(w_a0 + w_a3, range);
    let w_o1: i32 = clamp_value(w_a1 + w_a2, range);
    let w_o2: i32 = clamp_value(w_a1 - w_a2, range);
    let w_o3: i32 = clamp_value(w_a0 - w_a3, range);
    let mut r: Vec<i32> = Vec::new();
    r.push(w_o0);
    r.push(w_o1);
    r.push(w_o2);
    r.push(w_o3);
    r
}

/// The 8-point butterfly network, one stage per binding; every
/// combination is clamped to the signed `range`-bit interval right after
/// it is formed. The literal weights are the 12-bit fixed-point cosine
/// table entries.
#[verifier::opaque]
pub open spec fn spec_idct8(s: Seq<int>, range: nat) -> Seq<int> {
    let x0 = s[0];
    let x1 = s[1];
    let x2 = s[2];
    let x3 = s[3];
    let x4 = s[4];
    let x5 = s[5];
    let x6 = s[6];
    let x7 = s[7];
    let w_ea0 = half_btf_s(2896, x0, 2896, x4);
    let w_ea1 = half_btf_s(2896, x0, -2896, x4);
    let w_ea2 = half_btf_s(1567, x2, -3784, x6);
    let w_ea3 = half_btf_s(3784, x2, 1567, x6);
    let w_eo0 = clampv(w_ea0 + w_ea3, range);
    let w_eo1 = clampv(w_ea1 + w_ea2, range);
    let w_eo2 = clampv(w_ea1 - w_ea2, range);
    let w_eo3 = clampv(w_ea0 - w_ea3, range);
    let w_b0 = half_btf_s(799, x1, -4017, x7);
    let w_b1 = half_btf_s(3406, x5, -2276, x3);
    let w_b2 = half_btf_s(2276, x5, 3406, x3);
    let w_b3 = half_btf_s(4017, x1, 799, x7);
    let w_c0 = clampv(w_b0 + w_b1, range);
    let w_c1 = clampv(w_b0 - w_b1, range);
    let w_c2 = clampv(-w_b2 + w_b3, range);
    let w_c3 = clampv(w_b2 + w_b3, range);
    let w_d0 = w_c0;
    let w_d1 = half_btf_s(-2896, w_c1, 2896, w_c2);
    let w_d2 = half_btf_s(2896, w_c1, 2896, w_c2);
    let w_d3 = w_c3;
    let w_f0 = clampv(w_eo0 + w_d3, range);
    let w_f1 = clampv(w_eo1 + w_d2, range);
    let w_f2 = clampv(w_eo2 + w_d1, range);
    let w_f3 = clampv(w_eo3 + w_d0, range);
    let w_g0 = clampv(w_eo3 - w_d0, range);
    let w_g1 = clampv(w_eo2 - w_d1, range);
    let w_g2 = clampv(w_eo1 - w_d2, range);
    let w_g3 = clampv(w_eo0 - w_d3, range);
    seq![w_f0, w_f1, w_f2, w_f3, w_g0, w_g1, w_g2, w_g3]
}

#[verifier::rlimit(100)]
fn idct8(input: &Vec<i32>, range: usize) -> (r: Vec<i32>)
    requires
        input@.len() == 8,
        16 <= range <= 20,
        forall |k: int| 0 <= k < 8 ==> -0x200000 <= #[trigger] input@[k] <= 0x200000,
    ensures
        r@.len() == 8,
        forall |k: int| 0 <= k < 8 ==> #[trigger] r@[k] as int == spec_idct8(iseq(input@), range as nat)[k],
        forall |k: int| 0 <= k < 8 ==> -0xA00000 <= #[trigger] r@[k] <= 0xA00000,
        forall |k: int| 0 <= k < 8 ==> -0x200000 <= #[trigger] r@[k] <= 0x200000,
{
    proof { reveal(spec_idct8); }
    let x0: i32 = input[0];
    let x1: i32 = input[1];
    let x2: i32 = input[2];
    let x3: i32 = input[3];
    let x4: i32 = input[4];
    let x5: i32 = input[5];
    let x6: i32 = input[6];
    let x7: i32 = input[7];
    let w_ea0: i32 = half_btf(2896, x0, 2896, x4, 12);
    let w_ea1: i32 = half_btf(2896, x0, -2896, x4, 12);
    let w_ea2: i32 = half_btf(1567, x2, -3784, x6, 12);
    let w_ea3: i32 = half_btf(3784, x2, 1567, x6, 12);
    let w_eo0: i32 = clamp_value(w_ea0 + w_ea3, range);
    let w_eo1: i32 = clamp_value(w_ea1 + w_ea2, range);
    let w_eo2: i32 = clamp_value(w_ea1 - w_ea2, range);
    let w_eo3: i32 = clamp_value(w_ea0 - w_ea3, range);
    let w_b0: i32 = half_btf(799, x1, -4017, x7, 12);
    let w_b1: i32 = half_btf(3406, x5, -2276, x3, 12);
    let w_b2: i32 = half_btf(2276, x5, 3406, x3, 12);
    let w_b3: i32 = half_btf(4017, x1, 799, x7, 12);
    let w_c0: i32 = clamp_value(w_b0 + w_b1, range);
    let w_c1: i32 = clamp_value(w_b0 - w_b1, range);
    let w_c2: i32 = clamp_value(-w_b2 + w_b3, range);
    let w_c3: i32 = clamp_value(w_b2 + w_b3, range);
    let w_d0: i32 = w_c0;
    let w_d1: i32 = half_btf(-2896, w_c1, 2896, w_c2, 12);
    let w_d2: i32 = half_btf(2896, w_c1, 2896, w_c2, 12);
    let w_d3: i32 = w_c3;
    let w_f0: i32 = clamp_value(w_eo0 + w_d3, range);
    let w_f1: i32 = clamp_value(w_eo1 + w_d2, range);
    let w_f2: i32 = clamp_value(w_eo2 + w_d1, range);
    let w_f3: i32 = clamp_value(w_eo3 + w_d0, range);
    let w_g0: i32 = clamp_value(w_eo3 - w_d0, range);
    let w_g1: i32 = clamp_value(w_eo2 - w_d1, range);
    let w_g2: i32 = clamp_value(w_eo1 - w_d2, range);
    let w_g3: i32 = clamp_value(w_eo0 - w_d3, range);
    let mut r: Vec<i32> = Vec::new();
    r.push(w_f0);
    r.push(w_f1);
    r.push(w_f2);
    r.push(w_f3);
    r.push(w_g0);
    r.push(w_g1);
    r.push(w_g2);
    r.push(w_g3);
    r
}

/// The rotated butterfly chain over the odd coefficients of the 16-point
/// inverse DCT; every combination is clamped to the signed `range`-bit
/// interval right after it is formed.
#[verifier::opaque]
pub open spec fn spec_idct16_odd(s: Seq<int>, range: nat) -> Seq<int> {
    let x1 = s[1]; let x3 = s[3]; let x5 = s[5]; let x7 = s[7];
    let x9 = s[9]; let x11 = s[11]; let x13 = s[13]; let x15 = s[15];
    let b0 = half_btf_s(401, x1, -4076, x15);
    let b1 = half_btf_s(3166, x9, -2598, x7);
    let b2 = half_btf_s(1931, x5, -3612, x11);
    let b3 = half_btf_s(3920, x13, -1189, x3);
    let b4 = half_btf_s(1189, x13, 3920, x3);
    let b5 = half_btf_s(3612, x5, 1931, x11);
    let b6 = half_btf_s(2598, x9, 3166, x7);
    let b7 = half_btf_s(4076, x1, 401, x15);
    let c0 = clampv(b0 + b1, range);
    let c1 = clampv(b0 - b1, range);
    let c2 = clampv(-b2 + b3, range);
    let c3 = clampv(b2 + b3, range);
    let c4 = clampv(b4 + b5, range);
    let c5 = clampv(b4 - b5, range);
    let c6 = clampv(-b6 + b7, range);
    let c7 = clampv(b6 + b7, range);
    let d0 = c0;
    let d1 = half_btf_s(-3784, c1, 1567, c6);
    let d2 = half_btf_s(-1567, c2, -3784, c5);
    let d3 = c3;
    let d4 = c4;
    let d5 = half_btf_s(-3784, c2, 1567, c5);
    let d6 = half_btf_s(1567, c1, 3784, c6);
    let d7 = c7;
    let e0 = clampv(d0 + d3, range);
    let e1 = clampv(d1 + d2, range);
    let e2 = clampv(d1 - d2, range);
    let e3 = clampv(d0 - d3, range);
    let e4 = clampv(-d4 + d7, range);
    let e5 = clampv(-d5 + d6, range);
    let e6 = clampv(d5 + d6, range);
    let e7 = clampv(d4 + d7, range);
    seq![
        e0,
        e1,
        half_btf_s(-2896, e2, 2896, e5),
        half_btf_s(-2896, e3, 2896, e4),
        half_btf_s(2896, e3, 2896, e4),
        half_btf_s(2896, e2, 2896, e5),
        e6,
        e7,
    ]
}

#[verifier::rlimit(100)]
fn idct16_odd(input: &Vec<i32>, range: usize) -> (r: Vec<i32>)
    requires
        input@.len() == 16,
        16 <= range <= 20,
        forall |k: int| 0 <= k < 16 ==> -0x200000 <= #[trigger] input@[k] <= 0x200000,
    ensures
        r@.len() == 8,
        forall |k: int| 0 <= k < 8 ==> #[trigger] r@[k] as int == spec_idct16_odd(iseq(input@), range as nat)[k],
        forall |k: int| 0 <= k < 8 ==> -0x100001 <= #[trigger] r@[k] <= 0x100001,
    {
    proof { reveal(spec_idct16_odd); }
    let x1: i32 = input[1]; let x3: i32 = input[3]; let x5: i32 = input[5]; let x7: i32 = input[7];
    let x9: i32 = input[9]; let x11: i32 = input[11]; let x13: i32 = input[13]; let x15: i32 = input[15];
    let b0: i32 = half_btf(401, x1, -4076, x15, 12);
    let b1: i32 = half_btf(3166, x9, -2598, x7, 12);
    let b2: i32 = half_btf(1931, x5, -3612, x11, 12);
    let b3: i32 = half_btf(3920, x13, -1189, x3, 12);
    let b4: i32 = half_btf(1189, x13, 3920, x3, 12);
    let b5: i32 = half_btf(3612, x5, 1931, x11, 12);
    let b6: i32 = half_btf(2598, x9, 3166, x7, 12);
    let b7: i32 = half_btf(4076, x1, 401, x15, 12);
    let c0: i32 = clamp_value(b0 + b1, range);
    let c1: i32 = clamp_value(b0 - b1, range);
    let c2: i32 = clamp_value(-b2 + b3, range);
    let c3: i32 = clamp_value(b2 + b3, range);
    let c4: i32 = clamp_value(b4 + b5, range);
    let c5: i32 = clamp_value(b4 - b5, range);
    let c6: i32 = clamp_value(-b6 + b7, range);
    let c7: i32 = clamp_value(b6 + b7, range);
    let d0: i32 = c0;
    let d1: i32 = half_btf(-3784, c1, 1567, c6, 12);
    let d2: i32 = half_btf(-1567, c2, -3784, c5, 12);
    let d3: i32 = c3;
    let d4: i32 = c4;
    let d5: i32 = half_btf(-3784, c2, 1567, c5, 12);
    let d6: i32 = half_btf(1567, c1, 3784, c6, 12);
    let d7: i32 = c7;
    let e0: i32 = clamp_value(d0 + d3, range);
    let e1: i32 = clamp_value(d1 + d2, range);
    let e2: i32 = clamp_value(d1 - d2, range);
    let e3: i32 = clamp_value(d0 - d3, range);
    let e4: i32 = clamp_value(-d4 + d7, range);
    let e5: i32 = clamp_value(-d5 + d6, range);
    let e6: i32 = clamp_value(d5 + d6, range);
    let e7: i32 = clamp_value(d4 + d7, range);
    let mut r: Vec<i32> = Vec::new();
    r.push(e0);
    r.push(e1);
    r.push(half_btf(-2896, e2, 2896, e5, 12));
    r.push(half_btf(-2896, e3, 2896, e4, 12));
    r.push(half_btf(2896, e3, 2896, e4, 12));
    r.push(half_btf(2896, e2, 2896, e5, 12));
    r.push(e6);
    r.push(e7);
    r
}

/// The 16-point inverse DCT: the 8-point transform over the even
/// coefficients combined with the rotated chain over the odd ones.
#[verifier::opaque]
pub open spec fn spec_idct16(s: Seq<int>, range: nat) -> Seq<int> {
    let ev = spec_idct8(seq![s[0], s[2], s[4], s[6], s[8], s[10], s[12], s[14]], range);
    let t = spec_idct16_odd(s, range);
    seq![
        clampv(ev[0] + t[7], range),
        clampv(ev[1] + t[6], range),
        clampv(ev[2] + t[5], range),
        clampv(ev[3] + t[4], range),
        clampv(ev[4] + t[3], range),
        clampv(ev[5] + t[2], range),
        clampv(ev[6] + t[1], range),
        clampv(ev[7] + t[0], range),
        clampv(ev[7] - t[0], range),
        clampv(ev[6] - t[1], range),
        clampv(ev[5] - t[2], range),
        clampv(ev[4] - t[3], range),
        clampv(ev[3] - t[4], range),
        clampv(ev[2] - t[5], range),
        clampv(ev[1] - t[6], range),
        clampv(ev[0] - t[7], range),
    ]
}

#[verifier::rlimit(100)]
fn idct16(input: &Vec<i32>, range: usize) -> (r: Vec<i32>)
    requires
        input@.len() == 16,
        16 <= range <= 20,
        forall |k: int| 0 <= k < 16 ==> -0x200000 <= #[trigger] input@[k] <= 0x200000,
    ensures
        r@.len() == 16,
        forall |k: int| 0 <= k < 16 ==> #[trigger] r@[k] as int == spec_idct16(iseq(input@), range as nat)[k],
        forall |k: int| 0 <= k < 16 ==> -0xA00000 <= #[trigger] r@[k] <= 0xA00000,
        forall |k: int| 0 <= k < 16 ==> -0x200000 <= #[trigger] r@[k] <= 0x200000,
{
    proof { reveal(spec_idct16); }
    let mut evin: Vec<i32> = Vec::new();
    evin.push(input[0]);
    evin.push(input[2]);
    evin.push(input[4]);
    evin.push(input[6]);
    evin.push(input[8]);
    evin.push(input[10]);
    evin.push(input[12]);
    evin.push(input[14]);
    proof {
        let sq = iseq(input@);
        assert(iseq(evin@) =~= seq![sq[0], sq[2], sq[4], sq[6], sq[8], sq[10], sq[12], sq[14]]);
    }
    let ev = idct8(&evin, range);
    let t = idct16_odd(input, range);
    let mut r: Vec<i32> = Vec::new();
    r.push(clamp_value(ev[0] + t[7], range));
    r.push(clamp_value(ev[1] + t[6], range));
    r.push(clamp_value(ev[2] + t[5], range));
    r.push(clamp_value(ev[3] + t[4], range));
    r.push(clamp_value(ev[4] + t[3], range));
    r.push(clamp_value(ev[5] + t[2], range));
    r.push(clamp_value(ev[6] + t[1], range));
    r.push(clamp_value(ev[7] + t[0], range));
    r.push(clamp_value(ev[7] - t[0], range));
    r.push(clamp_value(ev[6] - t[1], range));
    r.push(clamp_value(ev[5] - t[2], range));
    r.push(clamp_value(ev[4] - t[3], range));
    r.push(clamp_value(ev[3] - t[4], range));
    r.push(clamp_value(ev[2] - t[5], range));
    r.push(clamp_value(ev[1] - t[6], range));
    r.push(clamp_value(ev[0] - t[7], range));
    r
}

#[verifier::opaque]
pub open spec fn spec_iadst8(s: Seq<int>, range: nat) -> Seq<int> {
    let x0 = s[0];
    let x1 = s[1];
    let x2 = s[2];
    let x3 = s[3];
    let x4 = s[4];
    let x5 = s[5];
    let x6 = s[6];
    let x7 = s[7];
    let w_b0 = half_btf_s(4076, x7, 401, x0);
    let w_b1 = half_btf_s(401, x7, -4076, x0);
    let w_b2 = half_btf_s(3612, x5, 1931, x2);
    let w_b3 = half_btf_s(1931, x5, -3612, x2);
    let w_b4 = half_btf_s(2598, x3, 3166, x4);
    let w_b5 = half_btf_s(3166, x3, -2598, x4);
    let w_b6 = half_btf_s(1189, x1, 3920, x6);
    let w_b7 = half_btf_s(3920, x1, -1189, x6);
    let w_c0 = clampv(w_b0 + w_b4, range);
    let w_c1 = clampv(w_b1 + w_b5, range);
    let w_c2 = clampv(w_b2 + w_b6, range);
    let w_c3 = clampv(w_b3 + w_b7, range);
    let w_c4 = clampv(w_b0 - w_b4, range);
    let w_c5 = clampv(w_b1 - w_b5, range);
    let w_c6 = clampv(w_b2 - w_b6, range);
    let w_c7 = clampv(w_b3 - w_b7, range);
    let w_d0 = w_c0;
    let w_d1 = w_c1;
    let w_d2 = w_c2;
    let w_d3 = w_c3;
    let w_d4 = half_btf_s(3784, w_c4, 1567, w_c5);
    let w_d5 = half_btf_s(1567, w_c4, -3784, w_c5);
    let w_d6 = half_btf_s(-1567, w_c6, 3784, w_c7);
    let w_d7 = half_btf_s(3784, w_c6, 1567, w_c7);
    let w_s0 = clampv(w_d0 + w_d2, range);
    let w_s1 = clampv(w_d1 + w_d3, range);
    let w_s2 = clampv(w_d0 - w_d2, range);
    let w_s3 = clampv(w_d1 - w_d3, range);
    let w_s4 = clampv(w_d4 + w_d6, range);
    let w_s5 = clampv(w_d5 + w_d7, range);
    let w_s6 = clampv(w_d4 - w_d6, range);
    let w_s7 = clampv(w_d5 - w_d7, range);
    let w_t0 = w_s0;
    let w_t1 = w_s1;
    let w_t2 = half_btf_s(2896, w_s2, 2896, w_s3);
    let w_t3 = half_btf_s(2896, w_s2, -2896, w_s3);
    let w_t4 = w_s4;
    let w_t5 = w_s5;
    let w_t6 = half_btf_s(2896, w_s6, 2896, w_s7);
    let w_t7 = half_btf_s(2896, w_s6, -2896, w_s7);
    seq![w_t0, -w_t4, w_t6, -w_t2, w_t3, -w_t7, w_t5, -w_t1]
}

#[verifier::rlimit(100)]
fn iadst8(input: &Vec<i32>, range: usize) -> (r: Vec<i32>)
    requires
        input@.len() == 8,
        16 <= range <= 20,
        forall |k: int| 0 <= k < 8 ==> -0x200000 <= #[trigger] input@[k] <= 0x200000,
    ensures
        r@.len() == 8,
        forall |k: int| 0 <= k < 8 ==> #[trigger] r@[k] as int == spec_iadst8(iseq(input@), range as nat)[k],
        forall |k: int| 0 <= k < 8 ==> -0xA00000 <= #[trigger] r@[k] <= 0xA00000,
        forall |k: int| 0 <= k < 8 ==> -0x200000 <= #[trigger] r@[k] <= 0x200000,
{
    proof { reveal(spec_iadst8); }
    let x0: i32 = input[0];
    let x1: i32 = input[1];
    let x2: i32 = input[2];
    let x3: i32 = input[3];
    let x4: i32 = input[4];
    let x5: i32 = input[5];
    let x6: i32 = input[6];
    let x7: i32 = input[7];
    let w_b0: i32 = half_btf(4076, x7, 401, x0, 12);
    let w_b1: i32 = half_btf(401, x7, -4076, x0, 12);
    let w_b2: i32 = half_btf(3612, x5, 1931, x2, 12);
    let w_b3: i32 = half_btf(1931, x5, -3612, x2, 12);
    let w_b4: i32 = half_btf(2598, x3, 3166, x4, 12);
    let w_b5: i32 = half_btf(3166, x3, -2598, x4, 12);
    let w_b6: i32 = half_btf(1189, x1, 3920, x6, 12);
    let w_b7: i32 = half_btf(3920, x1, -1189, x6, 12);
    let w_c0: i32 = clamp_value(w_b0 + w_b4, range);
    let w_c1: i32 = clamp_value(w_b1 + w_b5, range);
    let w_c2: i32 = clamp_value(w_b2 + w_b6, range);
    let w_c3: i32 = clamp_value(w_b3 + w_b7, range);
    let w_c4: i32 = clamp_value(w_b0 - w_b4, range);
    let w_c5: i32 = clamp_value(w_b1 - w_b5, range);
    let w_c6: i32 = clamp_value(w_b2 - w_b6, range);
    let w_c7: i32 = clamp_value(w_b3 - w_b7, range);
    let w_d0: i32 = w_c0;
    let w_d1: i32 = w_c1;
    let w_d2: i32 = w_c2;
    let w_d3: i32 = w_c3;
    let w_d4: i32 = half_btf(3784, w_c4, 1567, w_c5, 12);
    let w_d5: i32 = half_btf(1567, w_c4, -3784, w_c5, 12);
    let w_d6: i32 = half_btf(-1567, w_c6, 3784, w_c7, 12);
    let w_d7: i32 = half_btf(3784, w_c6, 1567, w_c7, 12);
    let w_s0: i32 = clamp_value(w_d0 + w_d2, range);
    let w_s1: i32 = clamp_value(w_d1 + w_d3, range);
    let w_s2: i32 = clamp_value(w_d0 - w_d2, range);
    let w_s3: i32 = clamp_value(w_d1 - w_d3, range);
    let w_s4: i32 = clamp_value(w_d4 + w_d6, range);
    let w_s5: i32 = clamp_value(w_d5 + w_d7, range);
    let w_s6: i32 = clamp_value(w_d4 - w_d6, range);
    let w_s7: i32 = clamp_value(w_d5 - w_d7, range);
    let w_t0: i32 = w_s0;
    let w_t1: i32 = w_s1;
    let w_t2: i32 = half_btf(2896, w_s2, 2896, w_s3, 12);
    let w_t3: i32 = half_btf(2896, w_s2, -2896, w_s3, 12);
    let w_t4: i32 = w_s4;
    let w_t5: i32 = w_s5;
    let w_t6: i32 = half_btf(2896, w_s6, 2896, w_s7, 12);
    let w_t7: i32 = half_btf(2896, w_s6, -2896, w_s7, 12);
    let mut r: Vec<i32> = Vec::new();
    r.push(w_t0);
    r.push(-w_t4);
    r.push(w_t6);
    r.push(-w_t2);
    r.push(w_t3);
    r.push(-w_t7);
    r.push(w_t5);
    r.push(-w_t1);
    r
}

/// First half of the 16-point inverse asymmetric sine transform: the
/// rotation stage over the permuted inputs followed by the first clamped
/// butterfly stage.
#[verifier::opaque]
pub open spec fn spec_iadst16_mid(s: Seq<int>, range: nat) -> Seq<int> {
    let x0 = s[0];
    let x1 = s[1];
    let x2 = s[2];
    let x3 = s[3];
    let x4 = s[4];
    let x5 = s[5];
    let x6 = s[6];
    let x7 = s[7];
    let x8 = s[8];
    let x9 = s[9];
    let x10 = s[10];
    let x11 = s[11];
    let x12 = s[12];
    let x13 = s[13];
    let x14 = s[14];
    let x15 = s[15];
    let b0 = half_btf_s(4091, x15, 201, x0);
    let b1 = half_btf_s(201, x15, -4091, x0);
    let b2 = half_btf_s(3973, x13, 995, x2);
    let b3 = half_btf_s(995, x13, -3973, x2);
    let b4 = half_btf_s(3703, x11, 1751, x4);
    let b5 = half_btf_s(1751, x11, -3703, x4);
    let b6 = half_btf_s(3290, x9, 2440, x6);
    let b7 = half_btf_s(2440, x9, -3290, x6);
    let b8 = half_btf_s(2751, x7, 3035, x8);
    let b9 = half_btf_s(3035, x7, -2751, x8);
    let b10 = half_btf_s(2106, x5, 3513, x10);
    let b11 = half_btf_s(3513, x5, -2106, x10);
    let b12 = half_btf_s(1380, x3, 3857, x12);
    let b13 = half_btf_s(3857, x3, -1380, x12);
    let b14 = half_btf_s(601, x1, 4052, x14);
    let b15 = half_btf_s(4052, x1, -601, x14);
    let c0 = clampv(b0 + b8, range);
    let c1 = clampv(b1 + b9, range);
    let c2 = clampv(b2 + b10, range);
    let c3 = clampv(b3 + b11, range);
    let c4 = clampv(b4 + b12, range);
    let c5 = clampv(b5 + b13, range);
    let c6 = clampv(b6 + b14, range);
    let c7 = clampv(b7 + b15, range);
    let c8 = clampv(b0 - b8, range);
    let c9 = clampv(b1 - b9, range);
    let c10 = clampv(b2 - b10, range);
    let c11 = clampv(b3 - b11, range);
    let c12 = clampv(b4 - b12, range);
    let c13 = clampv(b5 - b13, range);
    let c14 = clampv(b6 - b14, range);
    let c15 = clampv(b7 - b15, range);
    seq![c0, c1, c2, c3, c4, c5, c6, c7, c8, c9, c10, c11, c12, c13, c14, c15]
}

#[verifier::rlimit(100)]
fn iadst16_mid(input: &Vec<i32>, range: usize) -> (r: Vec<i32>)
    requires
        input@.len() == 16,
        16 <= range <= 20,
        forall |k: int| 0 <= k < 16 ==> -0x200000 <= #[trigger] input@[k] <= 0x200000,
    ensures
        r@.len() == 16,
        forall |k: int| 0 <= k < 16 ==> #[trigger] r@[k] as int == spec_iadst16_mid(iseq(input@), range as nat)[k],
        forall |k: int| 0 <= k < 16 ==> -0x80000 <= #[trigger] r@[k] <= 0x80000,
{
    proof { reveal(spec_iadst16_mid); }
    let x0: i32 = input[0];
    let x1: i32 = input[1];
    let x2: i32 = input[2];
    let x3: i32 = input[3];
    let x4: i32 = input[4];
    let x5: i32 = input[5];
    let x6: i32 = input[6];
    let x7: i32 = input[7];
    let x8: i32 = input[8];
    let x9: i32 = input[9];
    let x10: i32 = input[10];
    let x11: i32 = input[11];
    let x12: i32 = input[12];
    let x13: i32 = input[13];
    let x14: i32 = input[14];
    let x15: i32 = input[15];
    let b0: i32 = half_btf(4091, x15, 201, x0, 12);
    let b1: i32 = half_btf(201, x15, -4091, x0, 12);
    let b2: i32 = half_btf(3973, x13, 995, x2, 12);
    let b3: i32 = half_btf(995, x13, -3973, x2, 12);
    let b4: i32 = half_btf(3703, x11, 1751, x4, 12);
    let b5: i32 = half_btf(1751, x11, -3703, x4, 12);
    let b6: i32 = half_btf(3290, x9, 2440, x6, 12);
    let b7: i32 = half_btf(2440, x9, -3290, x6, 12);
    let b8: i32 = half_btf(2751, x7, 3035, x8, 12);
    let b9: i32 = half_btf(3035, x7, -2751, x8, 12);
    let b10: i32 = half_btf(2106, x5, 3513, x10, 12);
    let b11: i32 = half_btf(3513, x5, -2106, x10, 12);
    let b12: i32 = half_btf(1380, x3, 3857, x12, 12);
    let b13: i32 = half_btf(3857, x3, -1380, x12, 12);
    let b14: i32 = half_btf(601, x1, 4052, x14, 12);
    let b15: i32 = half_btf(4052, x1, -601, x14, 12);
    let c0: i32 = clamp_value(b0 + b8, range);
    let c1: i32 = clamp_value(b1 + b9, range);
    let c2: i32 = clamp_value(b2 + b10, range);
    let c3: i32 = clamp_value(b3 + b11, range);
    let c4: i32 = clamp_value(b4 + b12, range);
    let c5: i32 = clamp_value(b5 + b13, range);
    let c6: i32 = clamp_value(b6 + b14, range);
    let c7: i32 = clamp_value(b7 + b15, range);
    let c8: i32 = clamp_value(b0 - b8, range);
    let c9: i32 = clamp_value(b1 - b9, range);
    let c10: i32 = clamp_value(b2 - b10, range);
    let c11: i32 = clamp_value(b3 - b11, range);
    let c12: i32 = clamp_value(b4 - b12, range);
    let c13: i32 = clamp_value(b5 - b13, range);
    let c14: i32 = clamp_value(b6 - b14, range);
    let c15: i32 = clamp_value(b7 - b15, range);
    let mut r: Vec<i32> = Vec::new();
    r.push(c0);
    r.push(c1);
    r.push(c2);
    r.push(c3);
    r.push(c4);
    r.push(c5);
    r.push(c6);
    r.push(c7);
    r.push(c8);
    r.push(c9);
    r.push(c10);
    r.push(c11);
    r.push(c12);
    r.push(c13);
    r.push(c14);
    r.push(c15);
    r
}

/// Middle stages of the 16-point inverse asymmetric sine transform: from
/// the first clamped butterfly stage through the second rotation stage.
#[verifier::opaque]
pub open spec fn spec_iadst16_t(s: Seq<int>, range: nat) -> Seq<int> {
    let m = spec_iadst16_mid(s, range);
    let c0 = m[0];
    let c1 = m[1];
    let c2 = m[2];
    let c3 = m[3];
    let c4 = m[4];
    let c5 = m[5];
    let c6 = m[6];
    let c7 = m[7];
    let c8 = m[8];
    let c9 = m[9];
    let c10 = m[10];
    let c11 = m[11];
    let c12 = m[12];
    let c13 = m[13];
    let c14 = m[14];
    let c15 = m[15];
    let d0 = c0;
    let d1 = c1;
    let d2 = c2;
    let d3 = c3;
    let d4 = c4;
    let d5 = c5;
    let d6 = c6;
    let d7 = c7;
    let d8 = half_btf_s(4017, c8, 799, c9);
    let d9 = half_btf_s(799, c8, -4017, c9);
    let d10 = half_btf_s(2276, c10, 3406, c11);
    let d11 = half_btf_s(3406, c10, -2276, c11);
    let d12 = half_btf_s(-799, c12, 4017, c13);
    let d13 = half_btf_s(4017, c12, 799, c13);
    let d14 = half_btf_s(-3406, c14, 2276, c15);
    let d15 = half_btf_s(2276, c14, 3406, c15);
    let s0 = clampv(d0 + d4, range);
    let s1 = clampv(d1 + d5, range);
    let s2 = clampv(d2 + d6, range);
    let s3 = clampv(d3 + d7, range);
    let s4 = clampv(d0 - d4, range);
    let s5 = clampv(d1 - d5, range);
    let s6 = clampv(d2 - d6, range);
    let s7 = clampv(d3 - d7, range);
    let s8 = clampv(d8 + d12, range);
    let s9 = clampv(d9 + d13, range);
    let s10 = clampv(d10 + d14, range);
    let s11 = clampv(d11 + d15, range);
    let s12 = clampv(d8 - d12, range);
    let s13 = clampv(d9 - d13, range);
    let s14 = clampv(d10 - d14, range);
    let s15 = clampv(d11 - d15, range);
    let t0 = s0;
    let t1 = s1;
    let t2 = s2;
    let t3 = s3;
    let t4 = half_btf_s(3784, s4, 1567, s5);
    let t5 = half_btf_s(1567, s4, -3784, s5);
    let t6 = half_btf_s(-1567, s6, 3784, s7);
    let t7 = half_btf_s(3784, s6, 1567, s7);
    let t8 = s8;
    let t9 = s9;
    let t10 = s10;
    let t11 = s11;
    let t12 = half_btf_s(3784, s12, 1567, s13);
    let t13 = half_btf_s(1567, s12, -3784, s13);
    let t14 = half_btf_s(-1567, s14, 3784, s15);
    let t15 = half_btf_s(3784, s14, 1567, s15);
    seq![t0, t1, t2, t3, t4, t5, t6, t7, t8, t9, t10, t11, t12, t13, t14, t15]
}

/// The 16-point inverse asymmetric sine transform: the middle stages
/// followed by the final clamped butterflies and rotations; the output
/// order alternates signs.
#[verifier::opaque]
pub open spec fn spec_iadst16(s: Seq<int>, range: nat) -> Seq<int> {
    let m = spec_iadst16_t(s, range);
    let t0 = m[0];
    let t1 = m[1];
    let t2 = m[2];
    let t3 = m[3];
    let t4 = m[4];
    let t5 = m[5];
    let t6 = m[6];
    let t7 = m[7];
    let t8 = m[8];
    let t9 = m[9];
    let t10 = m[10];
    let t11 = m[11];
    let t12 = m[12];
    let t13 = m[13];
    let t14 = m[14];
    let t15 = m[15];
    let u0 = clampv(t0 + t2, range);
    let u1 = clampv(t1 + t3, range);
    let u2 = clampv(t0 - t2, range);
    let u3 = clampv(t1 - t3, range);
    let u4 = clampv(t4 + t6, range);
    let u5 = clampv(t5 + t7, range);
    let u6 = clampv(t4 - t6, range);
    let u7 = clampv(t5 - t7, range);
    let u8 = clampv(t8 + t10, range);
    let u9 = clampv(t9 + t11, range);
    let u10 = clampv(t8 - t10, range);
    let u11 = clampv(t9 - t11, range);
    let u12 = clampv(t12 + t14, range);
    let u13 = clampv(t13 + t15, range);
    let u14 = clampv(t12 - t14, range);
    let u15 = clampv(t13 - t15, range);
    let v0 = u0;
    let v1 = u1;
    let v2 = half_btf_s(2896, u2, 2896, u3);
    let v3 = half_btf_s(2896, u2, -2896, u3);
    let v4 = u4;
    let v5 = u5;
    let v6 = half_btf_s(2896, u6, 2896, u7);
    let v7 = half_btf_s(2896, u6, -2896, u7);
    let v8 = u8;
    let v9 = u9;
    let v10 = half_btf_s(2896, u10, 2896, u11);
    let v11 = half_btf_s(2896, u10, -2896, u11);
    let v12 = u12;
    let v13 = u13;
    let v14 = half_btf_s(2896, u14, 2896, u15);
    let v15 = half_btf_s(2896, u14, -2896, u15);
    seq![v0, -v8, v12, -v4, v6, -v14, v10, -v2, v3, -v11, v15, -v7, v5, -v13, v9, -v1]
}



#[verifier::rlimit(100)]
fn iadst16_t(input: &Vec<i32>, range: usize) -> (r: Vec<i32>)
    requires
        input@.len() == 16,
        16 <= range <= 20,
        forall |k: int| 0 <= k < 16 ==> -0x200000 <= #[trigger] input@[k] <= 0x200000,
    ensures
        r@.len() == 16,
        forall |k: int| 0 <= k < 16 ==> #[trigger] r@[k] as int == spec_iadst16_t(iseq(input@), range as nat)[k],
        forall |k: int| 0 <= k < 16 ==> -0x100001 <= #[trigger] r@[k] <= 0x100001,
{
    proof { reveal(spec_iadst16_t); }
    let m = iadst16_mid(input, range);
    let d0: i32 = m[0];
    let d1: i32 = m[1];
    let d2: i32 = m[2];
    let d3: i32 = m[3];
    let d4: i32 = m[4];
    let d5: i32 = m[5];
    let d6: i32 = m[6];
    let d7: i32 = m[7];
    let d8: i32 = half_btf(4017, m[8], 799, m[9], 12);
    let d9: i32 = half_btf(799, m[8], -4017, m[9], 12);
    let d10: i32 = half_btf(2276, m[10], 3406, m[11], 12);
    let d11: i32 = half_btf(3406, m[10], -2276, m[11], 12);
    let d12: i32 = half_btf(-799, m[12], 4017, m[13], 12);
    let d13: i32 = half_btf(4017, m[12], 799, m[13], 12);
    let d14: i32 = half_btf(-3406, m[14], 2276, m[15], 12);
    let d15: i32 = half_btf(2276, m[14], 3406, m[15], 12);
    let s0: i32 = clamp_value(d0 + d4, range);
    let s1: i32 = clamp_value(d1 + d5, range);
    let s2: i32 = clamp_value(d2 + d6, range);
    let s3: i32 = clamp_value(d3 + d7, range);
    let s4: i32 = clamp_value(d0 - d4, range);
    let s5: i32 = clamp_value(d1 - d5, range);
    let s6: i32 = clamp_value(d2 - d6, range);
    let s7: i32 = clamp_value(d3 - d7, range);
    let s8: i32 = clamp_value(d8 + d12, range);
    let s9: i32 = clamp_value(d9 + d13, range);
    let s10: i32 = clamp_value(d10 + d14, range);
    let s11: i32 = clamp_value(d11 + d15, range);
    let s12: i32 = clamp_value(d8 - d12, range);
    let s13: i32 = clamp_value(d9 - d13, range);
    let s14: i32 = clamp_value(d10 - d14, range);
    let s15: i32 = clamp_value(d11 - d15, range);
    let t0: i32 = s0;
    let t1: i32 = s1;
    let t2: i32 = s2;
    let t3: i32 = s3;
    let t4: i32 = half_btf(3784, s4, 1567, s5, 12);
    let t5: i32 = half_btf(1567, s4, -3784, s5, 12);
    let t6: i32 = half_btf(-1567, s6, 3784, s7, 12);
    let t7: i32 = half_btf(3784, s6, 1567, s7, 12);
    let t8: i32 = s8;
    let t9: i32 = s9;
    let t10: i32 = s10;
    let t11: i32 = s11;
    let t12: i32 = half_btf(3784, s12, 1567, s13, 12);
    let t13: i32 = half_btf(1567, s12, -3784, s13, 12);
    let t14: i32 = half_btf(-1567, s14, 3784, s15, 12);
    let t15: i32 = half_btf(3784, s14, 1567, s15, 12);
    let mut r: Vec<i32> = Vec::new();
    r.push(t0);
    r.push(t1);
    r.push(t2);
    r.push(t3);
    r.push(t4);
    r.push(t5);
    r.push(t6);
    r.push(t7);
    r.push(t8);
    r.push(t9);
    r.push(t10);
    r.push(t11);
    r.push(t12);
    r.push(t13);
    r.push(t14);
    r.push(t15);
    r
}

#[verifier::rlimit(100)]
fn iadst16(input: &Vec<i32>, range: usize) -> (r: Vec<i32>)
    requires
        input@.len() == 16,
        16 <= range <= 20,
        forall |k: int| 0 <= k < 16 ==> -0x200000 <= #[trigger] input@[k] <= 0x200000,
    ensures
        r@.len() == 16,
        forall |k: int| 0 <= k < 16 ==> #[trigger] r@[k] as int == spec_iadst16(iseq(input@), range as nat)[k],
        forall |k: int| 0 <= k < 16 ==> -0xA00000 <= #[trigger] r@[k] <= 0xA00000,
        forall |k: int| 0 <= k < 16 ==> -0x200000 <= #[trigger] r@[k] <= 0x200000,
{
    proof { reveal(spec_iadst16); }
    let m = iadst16_t(input, range);
    let t0: i32 = m[0];
    let t1: i32 = m[1];
    let t2: i32 = m[2];
    let t3: i32 = m[3];
    let t4: i32 = m[4];
    let t5: i32 = m[5];
    let t6: i32 = m[6];
    let t7: i32 = m[7];
    let t8: i32 = m[8];
    let t9: i32 = m[9];
    let t10: i32 = m[10];
    let t11: i32 = m[11];
    let t12: i32 = m[12];
    let t13: i32 = m[13];
    let t14: i32 = m[14];
    let t15: i32 = m[15];
    let u0: i32 = clamp_value(t0 + t2, range);
    let u1: i32 = clamp_value(t1 + t3, range);
    let u2: i32 = clamp_value(t0 - t2, range);
    let u3: i32 = clamp_value(t1 - t3, range);
    let u4: i32 = clamp_value(t4 + t6, range);
    let u5: i32 = clamp_value(t5 + t7, range);
    let u6: i32 = clamp_value(t4 - t6, range);
    let u7: i32 = clamp_value(t5 - t7, range);
    let u8: i32 = clamp_value(t8 + t10, range);
    let u9: i32 = clamp_value(t9 + t11, range);
    let u10: i32 = clamp_value(t8 - t10, range);
    let u11: i32 = clamp_value(t9 - t11, range);
    let u12: i32 = clamp_value(t12 + t14, range);
    let u13: i32 = clamp_value(t13 + t15, range);
    let u14: i32 = clamp_value(t12 - t14, range);
    let u15: i32 = clamp_value(t13 - t15, range);
    let v0: i32 = u0;
    let v1: i32 = u1;
    let v2: i32 = half_btf(2896, u2, 2896, u3, 12);
    let v3: i32 = half_btf(2896, u2, -2896, u3, 12);
    let v4: i32 = u4;
    let v5: i32 = u5;
    let v6: i32 = half_btf(2896, u6, 2896, u7, 12);
    let v7: i32 = half_btf(2896, u6, -2896, u7, 12);
    let v8: i32 = u8;
    let v9: i32 = u9;
    let v10: i32 = half_btf(2896, u10, 2896, u11, 12);
    let v11: i32 = half_btf(2896, u10, -2896, u11, 12);
    let v12: i32 = u12;
    let v13: i32 = u13;
    let v14: i32 = half_btf(2896, u14, 2896, u15, 12);
    let v15: i32 = half_btf(2896, u14, -2896, u15, 12);
    let mut r: Vec<i32> = Vec::new();
    r.push(v0);
    r.push(-v8);
    r.push(v12);
    r.push(-v4);
    r.push(v6);
    r.push(-v14);
    r.push(v10);
    r.push(-v2);
    r.push(v3);
    r.push(-v11);
    r.push(v15);
    r.push(-v7);
    r.push(v5);
    r.push(-v13);
    r.push(v9);
    r.push(-v1);
    r
}

/// One-dimensional transform family selector.
#[derive(Debug, Clone, Copy, PartialEq, Eq, Structural)]
pub enum TxType1D {
    DCT,
    ADST,
    FLIPADST,
    IDTX,
    WHT,
}

/// Two-dimensional transform type of a coded block.
#[derive(Debug, Clone, Copy, PartialEq, Eq, Structural)]
#[allow(non_camel_case_types)]
pub enum TxType {
    DCT_DCT,
    ADST_DCT,
    DCT_ADST,
    ADST_ADST,
    FLIPADST_DCT,
    DCT_FLIPADST,
    FLIPADST_FLIPADST,
    ADST_FLIPADST,
    FLIPADST_ADST,
    IDTX,
    V_DCT,
    H_DCT,
    V_ADST,
    H_ADST,
    V_FLIPADST,
    H_FLIPADST,
    WHT_WHT,
}

/// Transform block sizes covered by the inverse transform.
#[derive(Debug, Clone, Copy, PartialEq, Eq, Structural)]
#[allow(non_camel_case_types)]
pub enum TxSize {
    TX_4X4,
    TX_8X8,
    TX_16X16,
    TX_4X8,
    TX_8X4,
    TX_8X16,
    TX_16X8,
    TX_4X16,
    TX_16X4,
}

impl TxSize {
    /// Block width in samples.
    pub open spec fn spec_width(self) -> int {
        match self {
            TxSize::TX_4X4 => 4,
            TxSize::TX_8X8 => 8,
            TxSize::TX_16X16 => 16,
            TxSize::TX_4X8 => 4,
            TxSize::TX_8X4 => 8,
            TxSize::TX_8X16 => 8,
            TxSize::TX_16X8 => 16,
            TxSize::TX_4X16 => 4,
            TxSize::TX_16X4 => 16,
        }
    }

    /// Block height in samples.
    pub open spec fn spec_height(self) -> int {
        match self {
            TxSize::TX_4X4 => 4,
            TxSize::TX_8X8 => 8,
            TxSize::TX_16X16 => 16,
            TxSize::TX_4X8 => 8,
            TxSize::TX_8X4 => 4,
            TxSize::TX_8X16 => 16,
            TxSize::TX_16X8 => 8,
            TxSize::TX_4X16 => 16,
            TxSize::TX_16X4 => 4,
        }
    }

    pub fn width(self) -> (r: usize)
        ensures
            r == self.spec_width(),
            r == 4 || r == 8 || r == 16,
    {
        match self {
            TxSize::TX_4X4 => 4,
            TxSize::TX_8X8 => 8,
            TxSize::TX_16X16 => 16,
            TxSize::TX_4X8 => 4,
            TxSize::TX_8X4 => 8,
            TxSize::TX_8X16 => 8,
            TxSize::TX_16X8 => 16,
            TxSize::TX_4X16 => 4,
            TxSize::TX_16X4 => 16,
        }
    }

    pub fn height(self) -> (r: usize)
        ensures
            r == self.spec_height(),
            r == 4 || r == 8 || r == 16,
    {
        match self {
            TxSize::TX_4X4 => 4,
            TxSize::TX_8X8 => 8,
            TxSize::TX_16X16 => 16,
            TxSize::TX_4X8 => 8,
            TxSize::TX_8X4 => 4,
            TxSize::TX_8X16 => 16,
            TxSize::TX_16X8 => 8,
            TxSize::TX_4X16 => 16,
            TxSize::TX_16X4 => 4,
        }
    }
}

/// Which pair of one-dimensional transforms (column, row) a block transform
/// type decomposes into.
pub open spec fn spec_1d_tx_types(tx_type: TxType) -> (TxType1D, TxType1D) {
    match tx_type {
        TxType::DCT_DCT => (TxType1D::DCT, TxType1D::DCT),
        TxType::ADST_DCT => (TxType1D::ADST, TxType1D::DCT),
        TxType::DCT_ADST => (TxType1D::DCT, TxType1D::ADST),
        TxType::ADST_ADST => (TxType1D::ADST, TxType1D::ADST),
        TxType::FLIPADST_DCT => (TxType1D::FLIPADST, TxType1D::DCT),
        TxType::DCT_FLIPADST => (TxType1D::DCT, TxType1D::FLIPADST),
        TxType::FLIPADST_FLIPADST => (TxType1D::FLIPADST, TxType1D::FLIPADST),
        TxType::ADST_FLIPADST => (TxType1D::ADST, TxType1D::FLIPADST),
        TxType::FLIPADST_ADST => (TxType1D::FLIPADST, TxType1D::ADST),
        TxType::IDTX => (TxType1D::IDTX, TxType1D::IDTX),
        TxType::V_DCT => (TxType1D::DCT, TxType1D::IDTX),
        TxType::H_DCT => (TxType1D::IDTX, TxType1D::DCT),
        TxType::V_ADST => (TxType1D::ADST, TxType1D::IDTX),
        TxType::H_ADST => (TxType1D::IDTX, TxType1D::ADST),
        TxType::V_FLIPADST => (TxType1D::FLIPADST, TxType1D::IDTX),
        TxType::H_FLIPADST => (TxType1D::IDTX, TxType1D::FLIPADST),
        TxType::WHT_WHT => (TxType1D::WHT, TxType1D::WHT),
    }
}

/// Split a block transform type into its column and row 1-D transforms.
pub fn get_1d_tx_types(tx_type: TxType) -> (r: (TxType1D, TxType1D))
    ensures
        r == spec_1d_tx_types(tx_type),
{
    match tx_type {
        TxType::DCT_DCT => (TxType1D::DCT, TxType1D::DCT),
        TxType::ADST_DCT => (TxType1D::ADST, TxType1D::DCT),
        TxType::DCT_ADST => (TxType1D::DCT, TxType1D::ADST),
        TxType::ADST_ADST => (TxType1D::ADST, TxType1D::ADST),
        TxType::FLIPADST_DCT => (TxType1D::FLIPADST, TxType1D::DCT),
        TxType::DCT_FLIPADST => (TxType1D::DCT, TxType1D::FLIPADST),
        TxType::FLIPADST_FLIPADST => (TxType1D::FLIPADST, TxType1D::FLIPADST),
        TxType::ADST_FLIPADST => (TxType1D::ADST, TxType1D::FLIPADST),
        TxType::FLIPADST_ADST => (TxType1D::FLIPADST, TxType1D::ADST),
        TxType::IDTX => (TxType1D::IDTX, TxType1D::IDTX),
        TxType::V_DCT => (TxType1D::DCT, TxType1D::IDTX),
        TxType::H_DCT => (TxType1D::IDTX, TxType1D::DCT),
        TxType::V_ADST => (TxType1D::ADST, TxType1D::IDTX),
        TxType::H_ADST => (TxType1D::IDTX, TxType1D::ADST),
        TxType::V_FLIPADST => (TxType1D::FLIPADST, TxType1D::IDTX),
        TxType::H_FLIPADST => (TxType1D::IDTX, TxType1D::FLIPADST),
        TxType::WHT_WHT => (TxType1D::WHT, TxType1D::WHT),
    }
}

/// The 1-D transform a family applies to an `n`-point vector; the flipped
/// sine transform is the sine transform with its output reversed.
pub open spec fn spec_tx1d(ty: TxType1D, s: Seq<int>, n: nat, range: nat) -> Seq<int> {
    match ty {
        TxType1D::DCT => if n == 4 {
            spec_idct4(s, range)
        } else if n == 8 {
            spec_idct8(s, range)
        } else {
            spec_idct16(s, range)
        },
        TxType1D::ADST => if n == 4 {
            spec_iadst4(s)
        } else if n == 8 {
            spec_iadst8(s, range)
        } else {
            spec_iadst16(s, range)
        },
        TxType1D::FLIPADST => {
            let a = if n == 4 {
                spec_iadst4(s)
            } else if n == 8 {
                spec_iadst8(s, range)
            } else {
                spec_iadst16(s, range)
            };
            Seq::new(n, |k: int| a[n - 1 - k])
        },
        TxType1D::IDTX => if n == 4 {
            spec_iidentity4(s)
        } else if n == 8 {
            spec_iidentity8(s)
        } else {
            spec_iidentity16(s)
        },
        TxType1D::WHT => spec_iwht4(s),
    }
}

/// Apply the selected 1-D transform to a 4-, 8- or 16-point vector.
fn tx1d(ty: TxType1D, input: &Vec<i32>, range: usize) -> (r: Vec<i32>)
    requires
        input@.len() == 4 || input@.len() == 8 || input@.len() == 16,
        ty == TxType1D::WHT ==> input@.len() == 4,
        16 <= range <= 20,
        forall |k: int| 0 <= k < input@.len() ==> -0x200000 <= #[trigger] input@[k] <= 0x200000,
    ensures
        r@.len() == input@.len(),
        forall |k: int| 0 <= k < r@.len()
            ==> #[trigger] r@[k] as int == spec_tx1d(ty, iseq(input@), input@.len(), range as nat)[k],
        forall |k: int| 0 <= k < r@.len() ==> -0xA00000 <= #[trigger] r@[k] <= 0xA00000,
        (forall |k: int| 0 <= k < input@.len() ==> -0x10000 <= #[trigger] input@[k] <= 0x10000)
            ==> forall |k: int| 0 <= k < r@.len() ==> -0x200000 <= #[trigger] r@[k] <= 0x200000,
{
    let n = input.len();
    match ty {
        TxType1D::DCT => {
            if n == 4 {
                idct4(input, range)
            } else if n == 8 {
                idct8(input, range)
            } else {
                idct16(input, range)
            }
        },
        TxType1D::ADST => {
            if n == 4 {
                iadst4(input, range)
            } else if n == 8 {
                iadst8(input, range)
            } else {
                iadst16(input, range)
            }
        },
        TxType1D::FLIPADST => {
            let a = if n == 4 {
                iadst4(input, range)
            } else if n == 8 {
                iadst8(input, range)
            } else {
                iadst16(input, range)
            };
            let mut r: Vec<i32> = Vec::new();
            let mut k: usize = 0;
            while k < n
                invariant
                    a@.len() == n,
                    n == input@.len(),
                    k <= n,
                    r@.len() == k,
                    forall |k2: int| 0 <= k2 < k ==> #[trigger] r@[k2] == a@[n - 1 - k2],
                decreases n - k,
            {
                r.push(a[n - 1 - k]);
                k = k + 1;
            }
            r
        },
        TxType1D::IDTX => {
            if n == 4 {
                iidentity4(input, range)
            } else if n == 8 {
                iidentity8(input, range)
            } else {
                iidentity16(input, range)
            }
        },
        TxType1D::WHT => iwht4(input, range),
    }
}

/// The first `n` entries of a coefficient buffer, as mathematical integers.
pub open spec fn coeffs_of(s: Seq<i32>, n: nat) -> Seq<int> {
    Seq::new(n, |k: int| s[k] as int)
}

/// Row `j` of a row-major `w`-wide grid.
pub open spec fn row_of(g: Seq<int>, w: nat, j: int) -> Seq<int> {
    Seq::new(w, |i: int| g[j * w + i])
}

/// Column `i` of a row-major `w`-wide grid of height `h`.
pub open spec fn col_of(g: Seq<int>, w: nat, h: nat, i: int) -> Seq<int> {
    Seq::new(h, |j: int| g[j * w + i])
}

/// The grid after the row pass: every row transformed by the row transform.
pub open spec fn rows_grid(coeffs: Seq<int>, w: nat, h: nat, tyr: TxType1D, range: nat) -> Seq<int> {
    Seq::new(w * h, |n: int| spec_tx1d(tyr, row_of(coeffs, w, n / w as int), w, range)[n % w as int])
}

/// The 2-D inverse transform residual at block cell (`i`, `j`): the column
/// transform of column `i` of the row-transformed grid, taken at row `j`.
pub open spec fn inv_tx2d_at(
    coeffs: Seq<int>, w: nat, h: nat,
    tyc: TxType1D, tyr: TxType1D, range: nat,
    i: int, j: int,
) -> int {
    spec_tx1d(tyc, col_of(rows_grid(coeffs, w, h, tyr, range), w, h, i), h, range)[j]
}

/// Division and remainder of a row-major grid index.
proof fn lemma_grid_divmod(w: int, i: int, j: int)
    requires
        0 <= i < w,
        0 <= j,
    ensures
        (j * w + i) / w == j,
        (j * w + i) % w == i,
{
    vstd::arithmetic::div_mod::lemma_fundamental_div_mod_converse(j * w + i, w, j, i);
}

/// Map a block of frequency-domain coefficients (row-major, `tx_size` wide
/// and high) back to a spatial residual and add it to the prediction in
/// `dst` at (`dx`, `dy`), saturating each sum to the 8-bit sample range. A
/// zero end-of-block count is a no-op.
#[verifier::rlimit(100)]
pub fn inverse_transform_add(
    input: &Vec<i32>,
    dst: &mut Plane,
    dx: usize,
    dy: usize,
    eob: u16,
    tx_size: TxSize,
    tx_type: TxType,
    bd: usize,
)
    requires
        old(dst).wf(),
        8 <= bd <= 12,
        dx + tx_size.spec_width() <= old(dst).cfg.stride,
        dy + tx_size.spec_height() <= old(dst).cfg.alloc_height,
        input@.len() >= tx_size.spec_width() * tx_size.spec_height(),
        forall |k: int| 0 <= k < tx_size.spec_width() * tx_size.spec_height()
            ==> -0x10000 <= #[trigger] input@[k] <= 0x10000,
        tx_type == TxType::WHT_WHT ==> tx_size == TxSize::TX_4X4,
    ensures
        final(dst).wf(),
        final(dst).cfg == old(dst).cfg,
        final(dst).data@.len() == old(dst).data@.len(),
        eob == 0 ==> *final(dst) == *old(dst),
        eob != 0 ==> forall |i: int, j: int|
            0 <= i < tx_size.spec_width() && 0 <= j < tx_size.spec_height()
                ==> #[trigger] final(dst).sample(dx + i, dy + j) as int == sclamp(
                    old(dst).sample(dx + i, dy + j) + inv_tx2d_at(
                        coeffs_of(input@, (tx_size.spec_width() * tx_size.spec_height()) as nat),
                        tx_size.spec_width() as nat, tx_size.spec_height() as nat,
                        spec_1d_tx_types(tx_type).0, spec_1d_tx_types(tx_type).1,
                        (bd + 8) as nat, i, j),
                    0, pow2(bd as nat) - 1),
        eob != 0 ==> forall |x: int, y: int|
            0 <= x < old(dst).cfg.stride && 0 <= y < old(dst).cfg.alloc_height
                && !(dx <= x < dx + tx_size.spec_width() && dy <= y < dy + tx_size.spec_height())
                ==> #[trigger] final(dst).sample(x, y) == old(dst).sample(x, y),
{
    if eob == 0 {
        return;
    }
    let w: usize = tx_size.width();
    let h: usize = tx_size.height();
    let tys = get_1d_tx_types(tx_type);
    let ty_col = tys.0;
    let ty_row = tys.1;
    let range: usize = bd + 8;
    let ghost coeffs = coeffs_of(input@, (w * h) as nat);
    let ghost tyc = spec_1d_tx_types(tx_type).0;
    let ghost tyr = spec_1d_tx_types(tx_type).1;
    let ghost rg = rows_grid(coeffs, w as nat, h as nat, tyr, range as nat);
    let ilen: usize = input.len();
    proof {
        vstd::arithmetic::power2::lemma2_to64();
        if bd < 12 {
            vstd::arithmetic::power2::lemma_pow2_strictly_increases(bd as nat, 12);
        }
        vstd::bits::lemma_u64_shl_is_mul(1u64, bd as u64);
    }
    let max_val: i32 = ((1u64 << (bd as u64)) - 1) as i32;

    // Row pass.
    let mut rows: Vec<i32> = Vec::new();
    let mut j: usize = 0;
    while j < h
        invariant
            (w == 4 || w == 8 || w == 16) && (h == 4 || h == 8 || h == 16),
            j <= h,
            16 <= range <= 20,
            range == bd + 8,
            input@.len() == ilen,
            ty_row == tyr && ty_col == tyc,
            ty_row == TxType1D::WHT ==> w == 4,
            ty_col == TxType1D::WHT ==> h == 4,
            input@.len() >= w * h,
            forall |k: int| 0 <= k < w * h ==> -0x10000 <= #[trigger] input@[k] <= 0x10000,
            coeffs == coeffs_of(input@, (w * h) as nat),
            rg == rows_grid(coeffs, w as nat, h as nat, tyr, range as nat),
            rows@.len() == j * w,
            forall |i2: int, j2: int| 0 <= i2 < w && 0 <= j2 < j
                ==> #[trigger] rows@[crate::plane::gidx(w as int, i2, j2)] as int
                    == spec_tx1d(tyr, row_of(coeffs, w as nat, j2), w as nat, range as nat)[i2],
            forall |i2: int, j2: int| 0 <= i2 < w && 0 <= j2 < j
                ==> -0x200000 <= #[trigger] rows@[crate::plane::gidx(w as int, i2, j2)] <= 0x200000,
        decreases h - j,
    {
        let mut buf: Vec<i32> = Vec::new();
        let mut i: usize = 0;
        proof {
            assert(j * w + w <= w * h) by (nonlinear_arith)
                requires j + 1 <= h && w > 0 && j >= 0;
        }
        while i < w
            invariant
                (w == 4 || w == 8 || w == 16) && (h == 4 || h == 8 || h == 16),
                j < h,
                i <= w,
                input@.len() >= w * h,
                input@.len() == ilen,
                j * w + w <= w * h,
                forall |k: int| 0 <= k < w * h ==> -0x10000 <= #[trigger] input@[k] <= 0x10000,
                buf@.len() == i,
                forall |i2: int| 0 <= i2 < i ==> #[trigger] buf@[i2] == input@[j * w + i2],
            decreases w - i,
        {
            buf.push(input[j * w + i]);
            i = i + 1;
        }
        proof {
            assert forall |k: int| 0 <= k < w implies -0x10000 <= #[trigger] buf@[k] <= 0x10000 by {
                assert(buf@[k] == input@[j * w + k]);
                assert(0 <= j * w + k < w * h);
            }
            assert(iseq(buf@) =~= row_of(coeffs, w as nat, j as int)) by {
                assert forall |k: int| 0 <= k < w
                    implies iseq(buf@)[k] == row_of(coeffs, w as nat, j as int)[k] by {
                    assert(buf@[k] == input@[j * w + k]);
                    assert(coeffs[j * w + k] == input@[j * w + k] as int);
                }
            }
        }
        let out = tx1d(ty_row, &buf, range);
        let mut i: usize = 0;
        let ghost rows_at_start = rows@;
        while i < w
            invariant
                4 <= w <= 16,
                4 <= h <= 16,
                j < h,
                i <= w,
                out@.len() == w,
                rows@.len() == j * w + i,
                rows@ == rows_at_start + out@.subrange(0, i as int),
                rows_at_start.len() == j * w,
            decreases w - i,
        {
            rows.push(out[i]);
            proof {
                assert(rows@ =~= rows_at_start + out@.subrange(0, i + 1));
            }
            i = i + 1;
        }
        proof {
            assert(rows@ =~= rows_at_start + out@);
            assert(rows@.len() == (j + 1) * w) by (nonlinear_arith)
                requires rows@.len() == j * w + w;
            assert forall |i2: int, j2: int| 0 <= i2 < w && 0 <= j2 < j + 1
                implies #[trigger] rows@[crate::plane::gidx(w as int, i2, j2)] as int
                        == spec_tx1d(tyr, row_of(coeffs, w as nat, j2), w as nat, range as nat)[i2]
                    && -0x200000 <= rows@[crate::plane::gidx(w as int, i2, j2)] <= 0x200000 by {
                if j2 < j {
                    crate::plane::lemma_gidx_bounds(w as int, j as int, i2, j2);
                    assert(crate::plane::gidx(w as int, i2, j2) < w * j);
                    assert(w * j == j * w) by (nonlinear_arith);
                    assert(rows@[crate::plane::gidx(w as int, i2, j2)]
                        == rows_at_start[crate::plane::gidx(w as int, i2, j2)]);
                } else {
                    assert(crate::plane::gidx(w as int, i2, j2) == j * w + i2);
                    assert(rows@[j * w + i2] == out@[i2]);
                    assert(out@[i2] as int == spec_tx1d(tyr, iseq(buf@), w as nat, range as nat)[i2]);
                }
            }
        }
        j = j + 1;
    }

    proof {
        assert forall |n: int| 0 <= n < w * h
            implies #[trigger] rg[n] == rows@[n] as int && -0x200000 <= rows@[n] <= 0x200000 by {
            let jj = n / (w as int);
            let ii = n % (w as int);
            vstd::arithmetic::div_mod::lemma_fundamental_div_mod(n, w as int);
            vstd::arithmetic::div_mod::lemma_mod_bound(n, w as int);
            assert(0 <= jj) by (nonlinear_arith)
                requires n >= 0 && w > 0 && n == (w as int) * jj + ii && 0 <= ii < w;
            assert(jj < h) by (nonlinear_arith)
                requires n < w * h && w > 0 && n == (w as int) * jj + ii && 0 <= ii < w && jj >= 0;
            assert(crate::plane::gidx(w as int, ii, jj) == n) by (nonlinear_arith)
                requires n == (w as int) * jj + ii;
            assert(rows@[crate::plane::gidx(w as int, ii, jj)] as int
                == spec_tx1d(tyr, row_of(coeffs, w as nat, jj), w as nat, range as nat)[ii]);
        }
    }

    // Column pass, adding into the prediction.
    let rlen: usize = rows.len();
    let mut i: usize = 0;
    while i < w
        invariant
            dst.wf(),
            dst.cfg == old(dst).cfg,
            dst.data@.len() == old(dst).data@.len(),
            (w == 4 || w == 8 || w == 16) && (h == 4 || h == 8 || h == 16),
            i <= w,
            16 <= range <= 20,
            rows@.len() == rlen,
            ty_col == tyc,
            ty_col == TxType1D::WHT ==> h == 4,
            dx + w <= dst.cfg.stride,
            dy + h <= dst.cfg.alloc_height,
            rows@.len() == h * w,
            rg == rows_grid(coeffs, w as nat, h as nat, tyr, range as nat),
            forall |n: int| 0 <= n < w * h
                ==> #[trigger] rg[n] == rows@[n] as int && -0x200000 <= rows@[n] <= 0x200000,
            max_val as int == pow2(bd as nat) - 1,
            0 < max_val <= 4095,
            forall |i2: int, j2: int| 0 <= i2 < i && 0 <= j2 < h
                ==> #[trigger] dst.sample(dx + i2, dy + j2) as int == sclamp(
                    old(dst).sample(dx + i2, dy + j2) + inv_tx2d_at(
                        coeffs, w as nat, h as nat, tyc, tyr, range as nat, i2, j2),
                    0, max_val as int),
            forall |x: int, y: int|
                0 <= x < dst.cfg.stride && 0 <= y < dst.cfg.alloc_height
                    && !(dx <= x < dx + i && dy <= y < dy + h)
                    ==> #[trigger] dst.sample(x, y) == old(dst).sample(x, y),
        decreases w - i,
    {
        let mut buf: Vec<i32> = Vec::new();
        let mut j: usize = 0;
        while j < h
            invariant
                (w == 4 || w == 8 || w == 16) && (h == 4 || h == 8 || h == 16),
                i < w,
                j <= h,
                rows@.len() == h * w,
                rows@.len() == rlen,
                forall |n: int| 0 <= n < w * h
                    ==> #[trigger] rg[n] == rows@[n] as int && -0x200000 <= rows@[n] <= 0x200000,
                buf@.len() == j,
                forall |j2: int| 0 <= j2 < j ==> #[trigger] buf@[j2] == rows@[j2 * w + i as int],
            decreases h - j,
        {
            proof {
                assert(0 <= j * w + i < w * h) by (nonlinear_arith)
                    requires 0 <= i < w && 0 <= j < h;
                assert(w * h == h * w) by (nonlinear_arith);
            }
            buf.push(rows[j * w + i]);
            j = j + 1;
        }
        proof {
            assert forall |k: int| 0 <= k < h implies -0x200000 <= #[trigger] buf@[k] <= 0x200000 by {
                assert(buf@[k] == rows@[k * w + i as int]);
                assert(0 <= k * w + i < w * h) by (nonlinear_arith)
                    requires 0 <= i < w && 0 <= k < h;
                assert(rg[k * w + i as int] == rows@[k * w + i as int] as int);
            }
            assert(iseq(buf@) =~= col_of(rg, w as nat, h as nat, i as int)) by {
                assert forall |k: int| 0 <= k < h
                    implies iseq(buf@)[k] == col_of(rg, w as nat, h as nat, i as int)[k] by {
                    assert(buf@[k] == rows@[k * w + i as int]);
                    assert(0 <= k * w + i < w * h) by (nonlinear_arith)
                        requires 0 <= i < w && 0 <= k < h;
                    assert(rg[k * w + i as int] == rows@[k * w + i as int] as int);
                }
            }
        }
        let out = tx1d(ty_col, &buf, range);
        let mut j: usize = 0;
        while j < h
            invariant
                dst.wf(),
                dst.cfg == old(dst).cfg,
                dst.data@.len() == old(dst).data@.len(),
                (w == 4 || w == 8 || w == 16) && (h == 4 || h == 8 || h == 16),
                i < w,
                j <= h,
                dx + w <= dst.cfg.stride,
                dy + h <= dst.cfg.alloc_height,
                out@.len() == h,
                forall |k: int| 0 <= k < h ==> -0xA00000 <= #[trigger] out@[k] <= 0xA00000,
                forall |k: int| 0 <= k < h ==> #[trigger] out@[k] as int == inv_tx2d_at(
                    coeffs, w as nat, h as nat, tyc, tyr, range as nat, i as int, k),
                forall |i2: int, j2: int| 0 <= i2 < i && 0 <= j2 < h
                    ==> #[trigger] dst.sample(dx + i2, dy + j2) as int == sclamp(
                        old(dst).sample(dx + i2, dy + j2) + inv_tx2d_at(
                            coeffs, w as nat, h as nat, tyc, tyr, range as nat, i2, j2),
                        0, max_val as int),
                max_val as int == pow2(bd as nat) - 1,
                0 < max_val <= 4095,
                forall |j2: int| 0 <= j2 < j
                    ==> #[trigger] dst.sample(dx + i as int, dy + j2) as int == sclamp(
                        old(dst).sample(dx + i as int, dy + j2) + inv_tx2d_at(
                            coeffs, w as nat, h as nat, tyc, tyr, range as nat, i as int, j2),
                        0, max_val as int),
                forall |x: int, y: int|
                    0 <= x < dst.cfg.stride && 0 <= y < dst.cfg.alloc_height
                        && !(dx <= x < dx + i && dy <= y < dy + h)
                        && !(x == dx + i && dy <= y < dy + j)
                        ==> #[trigger] dst.sample(x, y) == old(dst).sample(x, y),
            decreases h - j,
        {
            let pred = dst.get(dx + i, dy + j);
            let v = clamp(pred as i32 + out[j], 0, max_val);
            dst.put(dx + i, dy + j, v as u16);
            j = j + 1;
        }
        i = i + 1;
    }
}

} // verus!
