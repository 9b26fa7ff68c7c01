//! Fixed-point arithmetic helpers shared by every kernel: rounding shifts,
//! clamping, most-significant-bit search, and alignment arithmetic.

use vstd::prelude::*;
use vstd::arithmetic::power2::pow2;
use vstd::arithmetic::div_mod::{lemma_fundamental_div_mod, lemma_fundamental_div_mod_converse};
use vstd::bits::{lemma_u64_shl_is_mul, lemma_u64_shr_is_div};

verus! {

/// Floor division of `v` by `2^bit`: the value of an arithmetic right shift.
pub open spec fn fdiv2(v: int, bit: nat) -> int {
    v / (pow2(bit) as int)
}

/// Rounding right shift: add half of the divisor, then shift. For `bit == 0`
/// the value is returned unchanged (the added half is zero).
pub open spec fn rshift(v: int, bit: nat) -> int {
    if bit == 0 {
        v
    } else {
        fdiv2(v + pow2((bit - 1) as nat) as int, bit)
    }
}

/// Clamp `v` into `[lo, hi]`, testing the lower bound first.
pub open spec fn sclamp(v: int, lo: int, hi: int) -> int {
    if v < lo {
        lo
    } else if v > hi {
        hi
    } else {
        v
    }
}

/// Floor right shift of a signed value, exact for negatives as well.
pub(crate) fn floor_shr_i64(v: i64, bit: usize) -> (r: i64)
    requires
        bit < 62,
        -0x2000_0000_0000_0000 <= v < 0x2000_0000_0000_0000,
    ensures
        r as int == fdiv2(v as int, bit as nat),
{
    proof {
        vstd::arithmetic::power2::lemma2_to64();
        vstd::arithmetic::power2::lemma2_to64_rest();
        vstd::arithmetic::power2::lemma_pow2_strictly_increases(bit as nat, 62);
        vstd::arithmetic::power2::lemma_pow2_pos(bit as nat);
        lemma_u64_shl_is_mul(1u64, bit as u64);
    }
    let d: u64 = 1u64 << (bit as u64);
    proof {
        assert(d == pow2(bit as nat));
        assert(d < 0x4000_0000_0000_0000);
    }
    if v >= 0 {
        let q: u64 = (v as u64) >> (bit as u64);
        proof {
            lemma_u64_shr_is_div(v as u64, bit as u64);
            vstd::arithmetic::div_mod::lemma_div_is_ordered(0, v as int, d as int);
            vstd::arithmetic::div_mod::lemma_div_nonincreasing(v as int, d as int);
        }
        q as i64
    } else {
        let u: u64 = (-v) as u64;
        let q0: u64 = (u + d - 1) / d;
        proof {
            let ui = u as int;
            let di = d as int;
            let q0i = q0 as int;
            lemma_fundamental_div_mod(ui + di - 1, di);
            let r0 = (ui + di - 1) % di;
            assert(ui + di - 1 == di * q0i + r0);
            assert(0 <= r0 < di);
            // -u == d * (-q0) + (d*q0 - u), with the remainder in [0, d)
            assert(di * q0i >= ui);
            assert(di * q0i <= ui + di - 1);
            assert(-ui == di * (-q0i) + (di * q0i - ui)) by (nonlinear_arith);
            lemma_fundamental_div_mod_converse(-ui, di, -q0i, di * q0i - ui);
            assert((-ui) / di == -q0i);
            // bound q0 so the negation fits
            assert(q0i <= ui) by {
                assert(di * q0i <= ui + di - 1);
                if q0i > ui {
                    assert(di * q0i >= di * (ui + 1)) by (nonlinear_arith)
                        requires di >= 1 && q0i >= ui + 1;
                    assert(di * (ui + 1) >= ui + di) by (nonlinear_arith)
                        requires di >= 1 && ui >= 0;
                }
            }
        }
        -((q0) as i64)
    }
}

/// Rounding right shift on `i32`, exactly `rshift` of the value.
pub fn round_shift(value: i32, bit: usize) -> (r: i32)
    requires
        bit < 32,
    ensures
        r as int == rshift(value as int, bit as nat),
{
    if bit == 0 {
        value
    } else {
        proof {
            vstd::arithmetic::power2::lemma2_to64();
            vstd::arithmetic::power2::lemma_pow2_strictly_increases((bit - 1) as nat, 31);
            lemma_u64_shl_is_mul(1u64, (bit - 1) as u64);
        }
        let half: u64 = 1u64 << ((bit - 1) as u64);
        let t: i64 = value as i64 + half as i64;
        let q: i64 = floor_shr_i64(t, bit);
        proof {
            let ti = t as int;
            let di = pow2(bit as nat) as int;
            vstd::arithmetic::power2::lemma_pow2_pos(bit as nat);
            vstd::arithmetic::power2::lemma_pow2_strictly_increases(bit as nat, 33);
            lemma_fundamental_div_mod(ti, di);
            assert(di >= 2) by {
                vstd::arithmetic::power2::lemma_pow2_strictly_increases(0, bit as nat);
                vstd::arithmetic::power2::lemma2_to64();
            }
            assert(-0x8000_0000 <= ti / di < 0x8000_0000) by (nonlinear_arith)
                requires
                    di >= 2,
                    ti == di * (ti / di) + ti % di,
                    0 <= ti % di < di,
                    -0x8000_0000 <= ti < 0x1_0000_0000;
        }
        q as i32
    }
}

/// Rounding right shift on `i64`, for wide intermediate products.
pub fn round_shift64(value: i64, bit: usize) -> (r: i64)
    requires
        1 <= bit < 32,
        -0x100_0000_0000_0000 <= value < 0x100_0000_0000_0000,
    ensures
        r as int == rshift(value as int, bit as nat),
        -0x100_0000_0000_0000 <= r < 0x100_0000_0000_0000,
{
    proof {
        vstd::arithmetic::power2::lemma2_to64();
        vstd::arithmetic::power2::lemma_pow2_strictly_increases((bit - 1) as nat, 31);
        lemma_u64_shl_is_mul(1u64, (bit - 1) as u64);
    }
    let half: u64 = 1u64 << ((bit - 1) as u64);
    let t: i64 = value + half as i64;
    let q: i64 = floor_shr_i64(t, bit);
    proof {
        let ti = t as int;
        let di = pow2(bit as nat) as int;
        vstd::arithmetic::power2::lemma_pow2_pos(bit as nat);
        lemma_fundamental_div_mod(ti, di);
        assert(di >= 2) by {
            vstd::arithmetic::power2::lemma_pow2_strictly_increases(0, bit as nat);
            vstd::arithmetic::power2::lemma2_to64();
        }
        assert(-0x100_0000_0000_0000 <= ti / di < 0x100_0000_0000_0000) by (nonlinear_arith)
            requires
                di >= 2,
                ti == di * (ti / di) + ti % di,
                0 <= ti % di < di,
                -0x100_0000_0000_0000 <= ti < 0x200_0000_0000_0000;
    }
    q
}

/// Clamp a value to a closed interval, testing the lower bound first.
pub fn clamp(input: i32, min: i32, max: i32) -> (r: i32)
    ensures
        r as int == sclamp(input as int, min as int, max as int),
{
    if input < min {
        min
    } else if input > max {
        max
    } else {
        input
    }
}

/// Index of the most significant set bit of a positive value.
pub fn msb(x: i32) -> (r: i32)
    requires
        x > 0,
    ensures
        0 <= r < 31,
        pow2(r as nat) <= x < pow2((r + 1) as nat),
{
    let mut v: u32 = x as u32;
    let mut r: u32 = 0;
    proof {
        vstd::arithmetic::power2::lemma2_to64();
    }
    while v >= 2
        invariant
            1 <= v <= x,
            r < 31,
            x > 0,
            pow2(r as nat) * v <= x < pow2(r as nat) * (v + 1),
        decreases v,
    {
        proof {
            let p = pow2(r as nat) as int;
            let vi = v as int;
            vstd::arithmetic::power2::lemma2_to64();
            vstd::arithmetic::power2::lemma_pow2_pos(r as nat);
            vstd::arithmetic::power2::lemma_pow2_unfold((r + 1) as nat);
            assert(p * 2 * (vi / 2) <= p * vi) by (nonlinear_arith)
                requires p >= 1 && vi >= 2;
            assert(p * vi < p * 2 * (vi / 2 + 1)) by (nonlinear_arith)
                requires p >= 1 && vi >= 2;
            assert(p * (vi + 1) <= p * 2 * (vi / 2 + 1)) by (nonlinear_arith)
                requires p >= 1 && vi >= 2;
            if r + 1 >= 31 {
                if r + 1 > 31 {
                    vstd::arithmetic::power2::lemma_pow2_strictly_increases(31, (r + 1) as nat);
                }
                assert(pow2((r + 1) as nat) >= 0x8000_0000);
                assert(pow2((r + 1) as nat) * (vi / 2) >= pow2((r + 1) as nat)) by (nonlinear_arith)
                    requires pow2((r + 1) as nat) >= 1 && vi / 2 >= 1;
            }
        }
        v = v / 2;
        r = r + 1;
    }
    proof {
        vstd::arithmetic::power2::lemma_pow2_unfold((r + 1) as nat);
        assert(v == 1);
        assert(pow2(r as nat) * 1 == pow2(r as nat)) by (nonlinear_arith);
        assert(pow2(r as nat) * 2 == 2 * pow2(r as nat)) by (nonlinear_arith);
        assert(pow2(r as nat) <= x);
        assert(x < pow2((r + 1) as nat));
    }
    r as i32
}

/// Floor (arithmetic) right shift on `i32`.
pub fn ashr(value: i32, bit: usize) -> (r: i32)
    requires
        bit < 32,
    ensures
        r as int == fdiv2(value as int, bit as nat),
{
    let q: i64 = floor_shr_i64(value as i64, bit);
    proof {
        let ti = value as int;
        let di = pow2(bit as nat) as int;
        vstd::arithmetic::power2::lemma_pow2_pos(bit as nat);
        lemma_fundamental_div_mod(ti, di);
        assert(-0x8000_0000 <= ti / di < 0x8000_0000) by (nonlinear_arith)
            requires
                di >= 1,
                ti == di * (ti / di) + ti % di,
                0 <= ti % di < di,
                -0x8000_0000 <= ti < 0x8000_0000;
    }
    q as i32
}

/// Alignment arithmetic over an unsigned size, by powers of two.
pub trait Fixed: Sized {
    /// The value being aligned, as a mathematical integer.
    spec fn fixed_val(&self) -> int;

    /// Round down to a multiple of `2^n`.
    fn floor_log2(&self, n: usize) -> (r: usize)
        requires
            n < 32,
        ensures
            r as int == self.fixed_val() - self.fixed_val() % (pow2(n as nat) as int),
    ;

    /// Round up to a multiple of `2^n`.
    fn ceil_log2(&self, n: usize) -> (r: usize)
        requires
            n < 32,
            self.fixed_val() + pow2(n as nat) - 1 <= usize::MAX,
        ensures
            r as int == add_ceil_align(self.fixed_val(), n as nat),
    ;

    /// Round up to a multiple of `2^n` (an alias of `ceil_log2`).
    fn align_power_of_two(&self, n: usize) -> (r: usize)
        requires
            n < 32,
            self.fixed_val() + pow2(n as nat) - 1 <= usize::MAX,
        ensures
            r as int == add_ceil_align(self.fixed_val(), n as nat),
    ;

    /// Round up to a multiple of `2^n`, then shift that multiple down by `n`.
    fn align_power_of_two_and_shift(&self, n: usize) -> (r: usize)
        requires
            n < 32,
            self.fixed_val() + pow2(n as nat) - 1 <= usize::MAX,
        ensures
            r as int == (self.fixed_val() + pow2(n as nat) - 1) / (pow2(n as nat) as int),
    ;
}

/// `v` rounded up to the next multiple of `2^n`.
pub open spec fn add_ceil_align(v: int, n: nat) -> int {
    let t = v + pow2(n) - 1;
    t - t % (pow2(n) as int)
}

impl Fixed for usize {
    open spec fn fixed_val(&self) -> int {
        *self as int
    }

    fn floor_log2(&self, n: usize) -> (r: usize) {
        proof {
            vstd::arithmetic::power2::lemma2_to64();
            if n < 31 {
                vstd::arithmetic::power2::lemma_pow2_strictly_increases(n as nat, 31);
            }
            vstd::arithmetic::power2::lemma_pow2_pos(n as nat);
            vstd::bits::lemma_usize_shl_is_mul(1usize, n);
            vstd::arithmetic::div_mod::lemma_mod_bound(*self as int, pow2(n as nat) as int);
            assert((*self as int) % (pow2(n as nat) as int) <= *self as int) by (nonlinear_arith)
                requires pow2(n as nat) as int >= 1 && *self as int >= 0;
        }
        let p: usize = 1usize << n;
        *self - *self % p
    }

    fn ceil_log2(&self, n: usize) -> (r: usize) {
        proof {
            vstd::arithmetic::power2::lemma2_to64();
            if n < 31 {
                vstd::arithmetic::power2::lemma_pow2_strictly_increases(n as nat, 31);
            }
            vstd::arithmetic::power2::lemma_pow2_pos(n as nat);
            vstd::bits::lemma_usize_shl_is_mul(1usize, n);
        }
        let p: usize = 1usize << n;
        let t: usize = *self + (p - 1);
        proof {
            vstd::arithmetic::div_mod::lemma_mod_bound(t as int, pow2(n as nat) as int);
            assert((t as int) % (pow2(n as nat) as int) <= t as int) by (nonlinear_arith)
                requires pow2(n as nat) as int >= 1 && t as int >= 0;
        }
        t - t % p
    }

    fn align_power_of_two(&self, n: usize) -> (r: usize) {
        self.ceil_log2(n)
    }

    fn align_power_of_two_and_shift(&self, n: usize) -> (r: usize) {
        proof {
            vstd::arithmetic::power2::lemma2_to64();
            if n < 31 {
                vstd::arithmetic::power2::lemma_pow2_strictly_increases(n as nat, 31);
            }
            vstd::arithmetic::power2::lemma_pow2_pos(n as nat);
            vstd::bits::lemma_usize_shl_is_mul(1usize, n);
        }
        let p: usize = 1usize << n;
        let t: usize = *self + (p - 1);
        proof {
            vstd::bits::lemma_usize_shr_is_div(t, n);
        }
        t >> n
    }
}

/// Position of the highest set bit, counted so that `ilog(1) == 1`; zero maps
/// to zero and a negative 16-bit value maps to the full width.
pub trait ILog: Sized {
    /// The argument as a mathematical integer.
    spec fn ilog_val(&self) -> int;

    /// How many bits the value occupies.
    fn ilog(self) -> (r: Self)
        ensures
            ilog_post(self.ilog_val(), r.ilog_val()),
    ;
}

/// The bit-width relation that `ilog` returns: zero for zero, the full width
/// for a negative 16-bit value, and otherwise the exponent `r` with
/// `2^(r-1) <= v < 2^r`.
pub open spec fn ilog_post(v: int, r: int) -> bool {
    if v == 0 {
        r == 0
    } else if v < 0 {
        r == 16
    } else {
        0 < r <= 64 && pow2((r - 1) as nat) <= v < pow2(r as nat)
    }
}

/// Bit width of a positive value, shared by the `ILog` implementations.
fn bit_width_u64(x: u64) -> (r: u32)
    requires
        x > 0,
    ensures
        0 < r <= 64,
        pow2((r - 1) as nat) <= x < pow2(r as nat),
{
    let mut v: u64 = x;
    let mut r: u32 = 1;
    proof {
        vstd::arithmetic::power2::lemma2_to64();
        assert(pow2(0) * x == x) by (nonlinear_arith)
            requires pow2(0) == 1;
        assert(pow2(0) * (x + 1) == x + 1) by (nonlinear_arith)
            requires pow2(0) == 1;
    }
    while v >= 2
        invariant
            1 <= v <= x,
            1 <= r <= 64,
            pow2((r - 1) as nat) * v <= x < pow2((r - 1) as nat) * (v + 1),
        decreases v,
    {
        proof {
            let p = pow2((r - 1) as nat) as int;
            let vi = v as int;
            vstd::arithmetic::power2::lemma2_to64();
            vstd::arithmetic::power2::lemma2_to64_rest();
            vstd::arithmetic::power2::lemma_pow2_pos((r - 1) as nat);
            vstd::arithmetic::power2::lemma_pow2_unfold(r as nat);
            assert(p * 2 * (vi / 2) <= p * vi) by (nonlinear_arith)
                requires p >= 1 && vi >= 2;
            assert(p * vi < p * 2 * (vi / 2 + 1)) by (nonlinear_arith)
                requires p >= 1 && vi >= 2;
            assert(p * (vi + 1) <= p * 2 * (vi / 2 + 1)) by (nonlinear_arith)
                requires p >= 1 && vi >= 2;
            if r >= 64 {
                assert(pow2(64) > x);
                assert(pow2(r as nat) * (vi / 2) >= pow2(r as nat)) by (nonlinear_arith)
                    requires pow2(r as nat) >= 1 && vi / 2 >= 1;
            }
        }
        v = v / 2;
        r = r + 1;
    }
    proof {
        assert(v == 1);
        assert(pow2((r - 1) as nat) * 1 == pow2((r - 1) as nat)) by (nonlinear_arith);
        vstd::arithmetic::power2::lemma_pow2_unfold(r as nat);
    }
    r
}

impl ILog for usize {
    open spec fn ilog_val(&self) -> int {
        *self as int
    }

    fn ilog(self) -> (r: usize) {
        if self == 0 {
            0
        } else {
            bit_width_u64(self as u64) as usize
        }
    }
}

impl ILog for i16 {
    open spec fn ilog_val(&self) -> int {
        *self as int
    }

    fn ilog(self) -> (r: i16) {
        if self == 0 {
            0
        } else if self < 0 {
            16
        } else {
            proof {
                vstd::arithmetic::power2::lemma2_to64();
            }
            bit_width_u64(self as u64) as i16
        }
    }
}

/// A rounding shift of a non-negative value stays within it.
pub proof fn lemma_rshift_nonneg_le(v: int, bit: nat)
    requires
        v >= 0,
    ensures
        0 <= rshift(v, bit) <= v,
{
    if bit > 0 {
        vstd::arithmetic::power2::lemma_pow2_pos(bit);
        vstd::arithmetic::power2::lemma_pow2_pos((bit - 1) as nat);
        vstd::arithmetic::power2::lemma_pow2_unfold(bit);
        vstd::arithmetic::div_mod::lemma_div_pos_is_pos(v + pow2((bit - 1) as nat), pow2(bit) as int);
        assert((v + pow2((bit - 1) as nat)) / (pow2(bit) as int) <= v) by (nonlinear_arith)
            requires
                v >= 0,
                pow2(bit) == 2 * pow2((bit - 1) as nat),
                pow2((bit - 1) as nat) >= 1,
        ;
    }
}

/// |a·b| is bounded by the product of the operands' bounds.
pub proof fn lemma_mul_abs_bound(a: int, b: int, aa: int, bb: int)
    requires
        -aa <= a <= aa,
        -bb <= b <= bb,
        0 <= aa,
        0 <= bb,
    ensures
        -(aa * bb) <= a * b <= aa * bb,
{
    assert(-(aa * bb) <= a * b <= aa * bb) by (nonlinear_arith)
        requires -aa <= a <= aa && -bb <= b <= bb && 0 <= aa && 0 <= bb;
}

/// `rshift` is monotone, so a bounded value shifts into bounded range.
pub proof fn lemma_rshift_range(v: int, bit: nat, lo: int, hi: int)
    requires
        lo <= v <= hi,
    ensures
        rshift(lo, bit) <= rshift(v, bit) <= rshift(hi, bit),
{
    if bit > 0 {
        vstd::arithmetic::power2::lemma_pow2_pos(bit);
        let h = pow2((bit - 1) as nat) as int;
        vstd::arithmetic::div_mod::lemma_div_is_ordered(lo + h, v + h, pow2(bit) as int);
        vstd::arithmetic::div_mod::lemma_div_is_ordered(v + h, hi + h, pow2(bit) as int);
    }
}

/// `fdiv2` is monotone, so a bounded value shifts into bounded range.
pub proof fn lemma_fdiv2_range(v: int, bit: nat, lo: int, hi: int)
    requires
        lo <= v <= hi,
    ensures
        fdiv2(lo, bit) <= fdiv2(v, bit) <= fdiv2(hi, bit),
{
    vstd::arithmetic::power2::lemma_pow2_pos(bit);
    vstd::arithmetic::div_mod::lemma_div_is_ordered(lo, v, pow2(bit) as int);
    vstd::arithmetic::div_mod::lemma_div_is_ordered(v, hi, pow2(bit) as int);
}

} // verus!
