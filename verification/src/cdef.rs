//! The constrained directional enhancement filter: an 8-direction activity
//! search over a mean-removed 8 × 8 block, and the per-pixel nonlinear
//! directional filter whose output never overshoots the samples it read.

use vstd::prelude::*;
use vstd::arithmetic::power2::pow2;
use crate::plane::{Plane, PlaneRegion};
use crate::util::{fdiv2, sclamp, ashr, clamp, lemma_mul_abs_bound, lemma_fdiv2_range};

verus! {

/// The synthesized sample value used where a neighbour is unavailable.
pub const CDEF_VERY_LARGE: u16 = 30000;

/// Edge availability bits: left, right, top, bottom, and all four.
pub const CDEF_HAVE_LEFT: u8 = 1;

pub const CDEF_HAVE_RIGHT: u8 = 2;

pub const CDEF_HAVE_TOP: u8 = 4;

pub const CDEF_HAVE_BOTTOM: u8 = 8;

pub const CDEF_HAVE_ALL: u8 = 15;

/// The per-direction divisor table, `840 / k` for a partial sum of `k`
/// samples.
pub open spec fn cdef_div(k: int) -> int {
    seq![0, 840, 420, 280, 210, 168, 140, 120, 105][k]
}

/// A block sample, scaled to 8 bits and mean-removed around mid-gray.
pub open spec fn xval(img: PlaneRegion, sh: nat, i: int, j: int) -> int {
    img.s(i, j) as int / pow2(sh) as int - 128
}

/// Which partial sum of direction `d` the sample at (`i`, `j`) feeds.
pub open spec fn dir_line(d: int, i: int, j: int) -> int {
    if d == 0 {
        j + i
    } else if d == 1 {
        j + i / 2
    } else if d == 2 {
        j
    } else if d == 3 {
        3 + j - i / 2
    } else if d == 4 {
        7 + j - i
    } else if d == 5 {
        3 - j / 2 + i
    } else if d == 6 {
        i
    } else {
        j / 2 + i
    }
}

/// The partial sum of direction `d`, line `k`, over the first `c` samples of
/// the 8 × 8 block in row-major order.
pub open spec fn psum_upto(img: PlaneRegion, sh: nat, d: int, k: int, c: nat) -> int
    decreases c,
{
    if c == 0 {
        0
    } else {
        let i = (c - 1) as int % 8;
        let j = (c - 1) as int / 8;
        psum_upto(img, sh, d, k, (c - 1) as nat)
            + if dir_line(d, i, j) == k { xval(img, sh, i, j) } else { 0 }
    }
}

/// The complete partial sum of direction `d`, line `k`.
pub open spec fn psum(img: PlaneRegion, sh: nat, d: int, k: int) -> int {
    psum_upto(img, sh, d, k, 64)
}

/// Weighted square of one partial line.
pub open spec fn psq(img: PlaneRegion, sh: nat, d: int, k: int) -> int {
    psum(img, sh, d, k) * psum(img, sh, d, k)
}

/// The activity cost of direction `d`: squared partial sums weighted by the
/// divisor table entry for each line's length.
pub open spec fn dir_cost(img: PlaneRegion, sh: nat, d: int) -> int {
    if d == 2 || d == 6 {
        105 * (psq(img, sh, d, 0) + psq(img, sh, d, 1) + psq(img, sh, d, 2)
            + psq(img, sh, d, 3) + psq(img, sh, d, 4) + psq(img, sh, d, 5)
            + psq(img, sh, d, 6) + psq(img, sh, d, 7))
    } else if d == 0 || d == 4 {
        (psq(img, sh, d, 0) + psq(img, sh, d, 14)) * cdef_div(1)
            + (psq(img, sh, d, 1) + psq(img, sh, d, 13)) * cdef_div(2)
            + (psq(img, sh, d, 2) + psq(img, sh, d, 12)) * cdef_div(3)
            + (psq(img, sh, d, 3) + psq(img, sh, d, 11)) * cdef_div(4)
            + (psq(img, sh, d, 4) + psq(img, sh, d, 10)) * cdef_div(5)
            + (psq(img, sh, d, 5) + psq(img, sh, d, 9)) * cdef_div(6)
            + (psq(img, sh, d, 6) + psq(img, sh, d, 8)) * cdef_div(7)
            + psq(img, sh, d, 7) * 105
    } else {
        105 * (psq(img, sh, d, 3) + psq(img, sh, d, 4) + psq(img, sh, d, 5)
            + psq(img, sh, d, 6) + psq(img, sh, d, 7))
            + (psq(img, sh, d, 0) + psq(img, sh, d, 10)) * cdef_div(2)
            + (psq(img, sh, d, 1) + psq(img, sh, d, 9)) * cdef_div(4)
            + (psq(img, sh, d, 2) + psq(img, sh, d, 8)) * cdef_div(6)
    }
}

/// First-seen maximum: the lowest-indexed direction whose cost exceeds every
/// earlier one, starting from cost zero.
pub open spec fn best_upto(costs: Seq<int>, k: nat) -> (int, int)
    decreases k,
{
    if k == 0 {
        (0, 0)
    } else {
        let prev = best_upto(costs, (k - 1) as nat);
        if costs[k - 1] > prev.1 {
            (k - 1, costs[k - 1])
        } else {
            prev
        }
    }
}

/// The eight direction costs of a block.
pub open spec fn all_costs(img: PlaneRegion, sh: nat) -> Seq<int> {
    Seq::new(8, |d: int| dir_cost(img, sh, d))
}

/// A value below `256 << sh` shifts down to below 256.
proof fn lemma_shift_lt(v: int, sh: nat)
    requires
        0 <= v < 256 * pow2(sh),
    ensures
        0 <= v / (pow2(sh) as int) < 256,
{
    vstd::arithmetic::power2::lemma_pow2_pos(sh);
    assert(0 <= v / (pow2(sh) as int) < 256) by (nonlinear_arith)
        requires 0 <= v < 256 * pow2(sh) && pow2(sh) >= 1;
}

/// Square of a bounded partial sum.
fn sq(p: i32) -> (q: i64)
    requires
        -8192 <= p <= 8192,
    ensures
        q as int == p as int * p as int,
        0 <= q <= 0x4000000,
{
    proof {
        lemma_mul_abs_bound(p as int, p as int, 8192, 8192);
        assert(0 <= p as int * p as int) by (nonlinear_arith);
    }
    (p as i64) * (p as i64)
}

/// One partial sum over the 8 × 8 block.
fn psum_exec(img: &PlaneRegion<'_>, sh: usize, d: usize, k: usize) -> (r: i32)
    requires
        img.wf(),
        8 <= img.rect.width && 8 <= img.rect.height,
        sh <= 8,
        d < 8,
        k < 15,
        forall |i: int, j: int| 0 <= i < 8 && 0 <= j < 8
            ==> #[trigger] img.s(i, j) < 256 * pow2(sh as nat),
    ensures
        r as int == psum(*img, sh as nat, d as int, k as int),
        -8192 <= r <= 8128,
{
    proof {
        vstd::arithmetic::power2::lemma2_to64();
        vstd::arithmetic::power2::lemma_pow2_pos(sh as nat);
    }
    let mut acc: i32 = 0;
    let mut c: usize = 0;
    while c < 64
        invariant
            img.wf(),
            8 <= img.rect.width && 8 <= img.rect.height,
            sh <= 8,
            d < 8,
            k < 15,
            forall |i: int, j: int| 0 <= i < 8 && 0 <= j < 8
                ==> #[trigger] img.s(i, j) < 256 * pow2(sh as nat),
            c <= 64,
            acc as int == psum_upto(*img, sh as nat, d as int, k as int, c as nat),
            -(c as int) * 127 - c <= acc <= c * 127,
        decreases 64 - c,
    {
        let i: usize = c % 8;
        let j: usize = c / 8;
        let line: usize = match d {
            0 => j + i,
            1 => j + i / 2,
            2 => j,
            3 => 3 + j - i / 2,
            4 => 7 + j - i,
            5 => 3 - j / 2 + i,
            6 => i,
            _ => j / 2 + i,
        };
        if line == k {
            let sv: u16 = img.get(i, j);
            let shifted: u32 = (sv as u32) >> (sh as u32);
            proof {
                vstd::bits::lemma_u32_shr_is_div(sv as u32, sh as u32);
                vstd::arithmetic::power2::lemma_pow2_pos(sh as nat);
                assert(img.s(i as int, j as int) < 256 * pow2(sh as nat));
                lemma_shift_lt(sv as int, sh as nat);
                assert((sv as u32) as int == sv as int);
            }
            let x: i32 = shifted as i32 - 128;
            acc = acc + x;
        }
        c = c + 1;
    }
    acc
}

/// The activity cost of one direction.
#[verifier::rlimit(100)]
fn dir_cost_exec(img: &PlaneRegion<'_>, sh: usize, d: usize) -> (r: i64)
    requires
        img.wf(),
        8 <= img.rect.width && 8 <= img.rect.height,
        sh <= 8,
        d < 8,
        forall |i: int, j: int| 0 <= i < 8 && 0 <= j < 8
            ==> #[trigger] img.s(i, j) < 256 * pow2(sh as nat),
    ensures
        r as int == dir_cost(*img, sh as nat, d as int),
        0 <= r <= 0x8000000000,
{
    let total: i64;
    if d == 2 || d == 6 {
        let mut t: i64 = 0;
        let p0 = sq(psum_exec(img, sh, d, 0));
        let p1 = sq(psum_exec(img, sh, d, 1));
        let p2 = sq(psum_exec(img, sh, d, 2));
        let p3 = sq(psum_exec(img, sh, d, 3));
        let p4 = sq(psum_exec(img, sh, d, 4));
        let p5 = sq(psum_exec(img, sh, d, 5));
        let p6 = sq(psum_exec(img, sh, d, 6));
        let p7 = sq(psum_exec(img, sh, d, 7));
        t = 105 * (p0 + p1 + p2 + p3 + p4 + p5 + p6 + p7);
        total = t;
    } else if d == 0 || d == 4 {
        let q0 = sq(psum_exec(img, sh, d, 0)) + sq(psum_exec(img, sh, d, 14));
        let q1 = sq(psum_exec(img, sh, d, 1)) + sq(psum_exec(img, sh, d, 13));
        let q2 = sq(psum_exec(img, sh, d, 2)) + sq(psum_exec(img, sh, d, 12));
        let q3 = sq(psum_exec(img, sh, d, 3)) + sq(psum_exec(img, sh, d, 11));
        let q4 = sq(psum_exec(img, sh, d, 4)) + sq(psum_exec(img, sh, d, 10));
        let q5 = sq(psum_exec(img, sh, d, 5)) + sq(psum_exec(img, sh, d, 9));
        let q6 = sq(psum_exec(img, sh, d, 6)) + sq(psum_exec(img, sh, d, 8));
        let q7 = sq(psum_exec(img, sh, d, 7));
        total = q0 * 840 + q1 * 420 + q2 * 280 + q3 * 210 + q4 * 168 + q5 * 140
            + q6 * 120 + q7 * 105;
    } else {
        let mid = sq(psum_exec(img, sh, d, 3)) + sq(psum_exec(img, sh, d, 4))
            + sq(psum_exec(img, sh, d, 5)) + sq(psum_exec(img, sh, d, 6))
            + sq(psum_exec(img, sh, d, 7));
        let e0 = sq(psum_exec(img, sh, d, 0)) + sq(psum_exec(img, sh, d, 10));
        let e1 = sq(psum_exec(img, sh, d, 1)) + sq(psum_exec(img, sh, d, 9));
        let e2 = sq(psum_exec(img, sh, d, 2)) + sq(psum_exec(img, sh, d, 8));
        total = 105 * mid + e0 * 420 + e1 * 210 + e2 * 140;
    }
    total
}

/// Estimate the dominant edge direction of the 8 × 8 block: the direction of
/// highest activity cost, ties resolved to the lowest index, together with
/// the cost margin over the orthogonal direction shifted down by ten bits.
pub fn cdef_find_dir(img: &PlaneRegion<'_>, var: &mut u32, coeff_shift: usize) -> (dir: i32)
    requires
        img.wf(),
        8 <= img.rect.width && 8 <= img.rect.height,
        coeff_shift <= 8,
        forall |i: int, j: int| 0 <= i < 8 && 0 <= j < 8
            ==> #[trigger] img.s(i, j) < 256 * pow2(coeff_shift as nat),
    ensures
        dir as int == best_upto(all_costs(*img, coeff_shift as nat), 8).0,
        *final(var) as int == fdiv2(
            best_upto(all_costs(*img, coeff_shift as nat), 8).1
                - all_costs(*img, coeff_shift as nat)[(dir + 4) as int % 8],
            10),
{
    let ghost costs = all_costs(*img, coeff_shift as nat);
    let mut cv: Vec<i64> = Vec::new();
    let mut d: usize = 0;
    while d < 8
        invariant
            img.wf(),
            8 <= img.rect.width && 8 <= img.rect.height,
            coeff_shift <= 8,
            forall |i: int, j: int| 0 <= i < 8 && 0 <= j < 8
                ==> #[trigger] img.s(i, j) < 256 * pow2(coeff_shift as nat),
            costs == all_costs(*img, coeff_shift as nat),
            d <= 8,
            cv@.len() == d,
            forall |m: int| 0 <= m < d ==> #[trigger] cv@[m] as int == costs[m]
                && 0 <= cv@[m] <= 0x8000000000,
        decreases 8 - d,
    {
        let c = dir_cost_exec(img, coeff_shift, d);
        cv.push(c);
        d = d + 1;
    }
    let mut best_cost: i64 = 0;
    let mut best_dir: usize = 0;
    let mut k: usize = 0;
    while k < 8
        invariant
            cv@.len() == 8,
            costs == all_costs(*img, coeff_shift as nat),
            forall |m: int| 0 <= m < 8 ==> #[trigger] cv@[m] as int == costs[m]
                && 0 <= cv@[m] <= 0x8000000000,
            k <= 8,
            best_dir as int == best_upto(costs, k as nat).0,
            best_cost as int == best_upto(costs, k as nat).1,
            best_dir < 8,
            0 <= best_cost <= 0x8000000000,
        decreases 8 - k,
    {
        if cv[k] > best_cost {
            best_cost = cv[k];
            best_dir = k;
        }
        k = k + 1;
    }
    proof {
        lemma_best_is_max(costs, 8, ((best_dir + 4) % 8) as int);
        vstd::arithmetic::power2::lemma2_to64();
        lemma_fdiv2_range(best_cost as int - cv@[((best_dir + 4) % 8) as int] as int,
            10, 0, 0x8000000000);
    }
    let opp: i64 = cv[(best_dir + 4) % 8];
    let margin: i64 = best_cost - opp;
    let v = crate::util::floor_shr_i64(margin, 10);
    *var = v as u32;
    best_dir as i32
}

/// The first-seen maximum is at least every cost it has scanned.
proof fn lemma_best_is_max(costs: Seq<int>, k: nat, m: int)
    requires
        0 <= m < k,
    ensures
        best_upto(costs, k).1 >= costs[m],
        best_upto(costs, k).1 >= 0,
    decreases k,
{
    if k > 0 {
        if m < k - 1 {
            lemma_best_is_max(costs, (k - 1) as nat, m);
        } else if k >= 2 {
            lemma_best_is_max(costs, (k - 1) as nat, k - 2);
        }
        lemma_best_nonneg(costs, (k - 1) as nat);
    }
}

proof fn lemma_best_nonneg(costs: Seq<int>, k: nat)
    ensures
        best_upto(costs, k).1 >= 0,
    decreases k,
{
    if k > 0 {
        lemma_best_nonneg(costs, (k - 1) as nat);
    }
}

/// The tap offsets (column, row) of each direction: the first and second
/// primary distance.
pub open spec fn dir_off(d: int, t: int) -> (int, int) {
    let tab = seq![
        seq![(1int, -1int), (2int, -2int)],
        seq![(1int, 0int), (2int, -1int)],
        seq![(1int, 0int), (2int, 0int)],
        seq![(1int, 0int), (2int, 1int)],
        seq![(1int, 1int), (2int, 2int)],
        seq![(0int, 1int), (1int, 2int)],
        seq![(0int, 1int), (0int, 2int)],
        seq![(0int, 1int), (-1int, 2int)],
    ];
    tab[d][t]
}

/// The nonlinear constraint on a tap difference: zero when damping is zero,
/// otherwise the difference limited by the strength threshold reduced with
/// the damped magnitude.
pub open spec fn constrain(diff: int, threshold: int, shift: nat, damping: int) -> int {
    if damping == 0 {
        0
    } else {
        let adiff = if diff < 0 { -diff } else { diff };
        let mag = if threshold - fdiv2(adiff, shift) < 0 {
            0
        } else if threshold - fdiv2(adiff, shift) > adiff {
            adiff
        } else {
            threshold - fdiv2(adiff, shift)
        };
        if diff < 0 { -mag } else { mag }
    }
}

/// A padded source sample around the block: the real sample where the edge
/// mask makes it available, the synthesized large value otherwise.
pub open spec fn padded(inp: PlaneRegion, x: int, y: int, xsize: int, ysize: int, edges: u8) -> int {
    if (x >= 0 || edges & CDEF_HAVE_LEFT != 0)
        && (x < xsize || edges & CDEF_HAVE_RIGHT != 0)
        && (y >= 0 || edges & CDEF_HAVE_TOP != 0)
        && (y < ysize || edges & CDEF_HAVE_BOTTOM != 0) {
        inp.s(x, y) as int
    } else {
        CDEF_VERY_LARGE as int
    }
}


/// The base-2 logarithm, rounded down.
pub open spec fn ilog2(x: int) -> nat
    decreases x,
{
    if x < 2 {
        0
    } else {
        1 + ilog2(x / 2)
    }
}

/// `ilog2` inverts powers of two.
proof fn lemma_pow2_ilog2(x: int, r: nat)
    requires
        pow2(r) <= x < pow2(r + 1),
    ensures
        ilog2(x) == r,
    decreases r,
{
    vstd::arithmetic::power2::lemma_pow2_pos(r);
    if r == 0 {
        vstd::arithmetic::power2::lemma2_to64();
    } else {
        vstd::arithmetic::power2::lemma_pow2_unfold(r);
        vstd::arithmetic::power2::lemma_pow2_unfold((r + 1) as nat);
        assert(pow2((r - 1) as nat) <= x / 2 < pow2(r)) by (nonlinear_arith)
            requires
                2 * pow2((r - 1) as nat) <= x,
                x < 2 * pow2(r),
                pow2((r - 1) as nat) >= 1,
        ;
        lemma_pow2_ilog2(x / 2, (r - 1) as nat);
        assert(x >= 2);
    }
}

/// The damped down-shift applied to a tap difference: the damping exponent
/// less the strength's magnitude, not below zero.
pub open spec fn damp_shift(damping: int, strength: int) -> nat {
    if strength > 0 {
        if damping - ilog2(strength) < 0 {
            0
        } else {
            (damping - ilog2(strength)) as nat
        }
    } else {
        0
    }
}

/// Primary tap weights, selected by the low bit of the scaled strength:
/// (4, 2) for even, (3, 3) for odd.
pub open spec fn pri_w(pri_strength: int, cs: nat, t: int) -> int {
    if fdiv2(pri_strength, cs) % 2 == 1 {
        3
    } else if t == 0 {
        4
    } else {
        2
    }
}

/// Secondary tap weights: 2 at the near distance, 1 at the far one.
pub open spec fn sec_w(t: int) -> int {
    if t == 0 { 2 } else { 1 }
}

/// The smaller of two values.
pub open spec fn imin(a: int, b: int) -> int {
    if a < b { a } else { b }
}

/// The larger of two values.
pub open spec fn imax(a: int, b: int) -> int {
    if a > b { a } else { b }
}

/// One directional tap around (`x`, `y`): direction `d`, distance `t`,
/// orientation `sign`.
pub open spec fn tap(inp: PlaneRegion, x: int, y: int, xs: int, ys: int, edges: u8, d: int, t: int, sign: int) -> int {
    padded(inp, x + sign * dir_off(d, t).0, y + sign * dir_off(d, t).1, xs, ys, edges)
}

/// The smallest of the twelve samples a filtered pixel reads, and itself.
#[verifier::opaque]
pub open spec fn tap_min(inp: PlaneRegion, x: int, y: int, xs: int, ys: int, edges: u8, dir: int) -> int {
    let d2 = (dir + 2) % 8;
    let d6 = (dir + 6) % 8;
    imin(imin(imin(imin(tap(inp, x, y, xs, ys, edges, dir, 0, 1), tap(inp, x, y, xs, ys, edges, dir, 0, -1)),
        imin(tap(inp, x, y, xs, ys, edges, dir, 1, 1), tap(inp, x, y, xs, ys, edges, dir, 1, -1))),
        imin(imin(tap(inp, x, y, xs, ys, edges, d2, 0, 1), tap(inp, x, y, xs, ys, edges, d2, 0, -1)),
            imin(tap(inp, x, y, xs, ys, edges, d2, 1, 1), tap(inp, x, y, xs, ys, edges, d2, 1, -1)))),
        imin(imin(imin(tap(inp, x, y, xs, ys, edges, d6, 0, 1), tap(inp, x, y, xs, ys, edges, d6, 0, -1)),
            imin(tap(inp, x, y, xs, ys, edges, d6, 1, 1), tap(inp, x, y, xs, ys, edges, d6, 1, -1))),
            inp.s(x, y) as int))
}

/// The largest of the twelve samples a filtered pixel reads, and itself.
#[verifier::opaque]
pub open spec fn tap_max(inp: PlaneRegion, x: int, y: int, xs: int, ys: int, edges: u8, dir: int) -> int {
    let d2 = (dir + 2) % 8;
    let d6 = (dir + 6) % 8;
    imax(imax(imax(imax(tap(inp, x, y, xs, ys, edges, dir, 0, 1), tap(inp, x, y, xs, ys, edges, dir, 0, -1)),
        imax(tap(inp, x, y, xs, ys, edges, dir, 1, 1), tap(inp, x, y, xs, ys, edges, dir, 1, -1))),
        imax(imax(tap(inp, x, y, xs, ys, edges, d2, 0, 1), tap(inp, x, y, xs, ys, edges, d2, 0, -1)),
            imax(tap(inp, x, y, xs, ys, edges, d2, 1, 1), tap(inp, x, y, xs, ys, edges, d2, 1, -1)))),
        imax(imax(imax(tap(inp, x, y, xs, ys, edges, d6, 0, 1), tap(inp, x, y, xs, ys, edges, d6, 0, -1)),
            imax(tap(inp, x, y, xs, ys, edges, d6, 1, 1), tap(inp, x, y, xs, ys, edges, d6, 1, -1))),
            inp.s(x, y) as int))
}

/// The weighted constrained sum a filtered pixel accumulates.
#[verifier::opaque]
pub open spec fn cdef_sum(
    inp: PlaneRegion, x: int, y: int, xs: int, ys: int, edges: u8,
    pri: int, sec: int, dir: int, damping: int, cs: nat,
) -> int {
    let px = inp.s(x, y) as int;
    let psh = damp_shift(damping, pri);
    let ssh = damp_shift(damping, sec);
    let d2 = (dir + 2) % 8;
    let d6 = (dir + 6) % 8;
    pri_w(pri, cs, 0) * (constrain(tap(inp, x, y, xs, ys, edges, dir, 0, 1) - px, pri, psh, damping)
            + constrain(tap(inp, x, y, xs, ys, edges, dir, 0, -1) - px, pri, psh, damping))
        + pri_w(pri, cs, 1) * (constrain(tap(inp, x, y, xs, ys, edges, dir, 1, 1) - px, pri, psh, damping)
            + constrain(tap(inp, x, y, xs, ys, edges, dir, 1, -1) - px, pri, psh, damping))
        + sec_w(0) * (constrain(tap(inp, x, y, xs, ys, edges, d2, 0, 1) - px, sec, ssh, damping)
            + constrain(tap(inp, x, y, xs, ys, edges, d2, 0, -1) - px, sec, ssh, damping)
            + constrain(tap(inp, x, y, xs, ys, edges, d6, 0, 1) - px, sec, ssh, damping)
            + constrain(tap(inp, x, y, xs, ys, edges, d6, 0, -1) - px, sec, ssh, damping))
        + sec_w(1) * (constrain(tap(inp, x, y, xs, ys, edges, d2, 1, 1) - px, sec, ssh, damping)
            + constrain(tap(inp, x, y, xs, ys, edges, d2, 1, -1) - px, sec, ssh, damping)
            + constrain(tap(inp, x, y, xs, ys, edges, d6, 1, 1) - px, sec, ssh, damping)
            + constrain(tap(inp, x, y, xs, ys, edges, d6, 1, -1) - px, sec, ssh, damping))
}

/// The filtered value of one pixel: the centre plus the rounded weighted
/// sum, clamped to the extrema of the samples that were read.
#[verifier::opaque]
pub open spec fn cdef_px(
    inp: PlaneRegion, x: int, y: int, xs: int, ys: int, edges: u8,
    pri: int, sec: int, dir: int, damping: int, cs: nat,
) -> int {
    let px = inp.s(x, y) as int;
    let sum = cdef_sum(inp, x, y, xs, ys, edges, pri, sec, dir, damping, cs);
    sclamp(
        px + fdiv2(sum + 8 - (if sum < 0 { 1int } else { 0int }), 4),
        tap_min(inp, x, y, xs, ys, edges, dir),
        tap_max(inp, x, y, xs, ys, edges, dir),
    )
}

/// The filtered pixel never overshoots: it stays within the extrema of the
/// centre sample and the twelve directional taps it read.
pub proof fn lemma_cdef_px_bounded(
    inp: PlaneRegion, x: int, y: int, xs: int, ys: int, edges: u8,
    pri: int, sec: int, dir: int, damping: int, cs: nat,
)
    ensures
        tap_min(inp, x, y, xs, ys, edges, dir)
            <= cdef_px(inp, x, y, xs, ys, edges, pri, sec, dir, damping, cs)
            <= tap_max(inp, x, y, xs, ys, edges, dir),
{
    reveal(tap_min);
    reveal(tap_max);
    reveal(cdef_px);
    assert(tap_min(inp, x, y, xs, ys, edges, dir) <= inp.s(x, y) as int);
    assert(inp.s(x, y) as int <= tap_max(inp, x, y, xs, ys, edges, dir));
}

/// Read one padded sample around the block.
fn padded_get(inp: &PlaneRegion<'_>, x: i32, y: i32, xs: usize, ys: usize, edges: u8) -> (v: u16)
    requires
        inp.wf(),
        xs <= 8 && ys <= 8,
        -2 <= x <= xs + 2,
        -2 <= y <= ys + 2,
        0 <= inp.abs_x(-2),
        inp.abs_x(xs as int + 2) < inp.plane.cfg.stride,
        0 <= inp.abs_y(-2),
        inp.abs_y(ys as int + 2) < inp.plane.cfg.alloc_height,
    ensures
        v as int == padded(*inp, x as int, y as int, xs as int, ys as int, edges),
{
    let avail = (x >= 0 || edges & CDEF_HAVE_LEFT != 0)
        && (x < xs as i32 || edges & CDEF_HAVE_RIGHT != 0)
        && (y >= 0 || edges & CDEF_HAVE_TOP != 0)
        && (y < ys as i32 || edges & CDEF_HAVE_BOTTOM != 0);
    if avail {
        let ax: i64 = inp.plane.cfg.xorigin as i64 + inp.rect.x as i64 + x as i64;
        let ay: i64 = inp.plane.cfg.yorigin as i64 + inp.rect.y as i64 + y as i64;
        inp.plane.get(ax as usize, ay as usize)
    } else {
        CDEF_VERY_LARGE
    }
}

/// The nonlinear constraint on one tap difference.
fn constrain_exec(diff: i32, threshold: i32, shift: usize, damping: i32) -> (r: i32)
    requires
        -0x10000 <= diff <= 0x10000,
        0 <= threshold <= 0x10000,
        shift < 31,
    ensures
        r as int == constrain(diff as int, threshold as int, shift as nat, damping as int),
        -0x10000 <= r <= 0x10000,
        r as int <= threshold,
        -threshold <= r as int,
{
    if damping == 0 {
        return 0;
    }
    let adiff: i32 = if diff < 0 { -diff } else { diff };
    let shifted = ashr(adiff, shift);
    proof {
        vstd::arithmetic::power2::lemma2_to64();
        lemma_fdiv2_range(adiff as int, shift as nat, 0, 0x10000);
    }
    let reduced: i32 = threshold - shifted;
    let mag: i32 = if reduced < 0 {
        0
    } else if reduced > adiff {
        adiff
    } else {
        reduced
    };
    if diff < 0 { -mag } else { mag }
}

/// The smaller of two samples.
fn umin(a: u16, b: u16) -> (r: u16)
    ensures
        r as int == imin(a as int, b as int),
{
    if a < b { a } else { b }
}

/// The larger of two samples.
fn umax(a: u16, b: u16) -> (r: u16)
    ensures
        r as int == imax(a as int, b as int),
{
    if a > b { a } else { b }
}

/// The twelve directional taps around one pixel, primary direction first,
/// then the two secondary directions, near distance before far, positive
/// orientation before negative.
#[verifier::rlimit(100)]
fn cdef_taps(
    inp: &PlaneRegion<'_>, x: usize, y: usize, xs: usize, ys: usize, edges: u8, dir: usize,
) -> (t: [u16; 12])
    requires
        inp.wf(),
        xs <= 8 && ys <= 8,
        x < xs && y < ys,
        dir < 8,
        0 <= inp.abs_x(-2),
        inp.abs_x(xs as int + 2) < inp.plane.cfg.stride,
        0 <= inp.abs_y(-2),
        inp.abs_y(ys as int + 2) < inp.plane.cfg.alloc_height,
    ensures
        t@[0] as int == tap(*inp, x as int, y as int, xs as int, ys as int, edges, dir as int, 0, 1),
        t@[1] as int == tap(*inp, x as int, y as int, xs as int, ys as int, edges, dir as int, 0, -1),
        t@[2] as int == tap(*inp, x as int, y as int, xs as int, ys as int, edges, dir as int, 1, 1),
        t@[3] as int == tap(*inp, x as int, y as int, xs as int, ys as int, edges, dir as int, 1, -1),
        t@[4] as int == tap(*inp, x as int, y as int, xs as int, ys as int, edges, (dir + 2) as int % 8, 0, 1),
        t@[5] as int == tap(*inp, x as int, y as int, xs as int, ys as int, edges, (dir + 2) as int % 8, 0, -1),
        t@[6] as int == tap(*inp, x as int, y as int, xs as int, ys as int, edges, (dir + 2) as int % 8, 1, 1),
        t@[7] as int == tap(*inp, x as int, y as int, xs as int, ys as int, edges, (dir + 2) as int % 8, 1, -1),
        t@[8] as int == tap(*inp, x as int, y as int, xs as int, ys as int, edges, (dir + 6) as int % 8, 0, 1),
        t@[9] as int == tap(*inp, x as int, y as int, xs as int, ys as int, edges, (dir + 6) as int % 8, 0, -1),
        t@[10] as int == tap(*inp, x as int, y as int, xs as int, ys as int, edges, (dir + 6) as int % 8, 1, 1),
        t@[11] as int == tap(*inp, x as int, y as int, xs as int, ys as int, edges, (dir + 6) as int % 8, 1, -1),
{
    let offs: [[i32; 4]; 8] = [
        [1, -1, 2, -2],
        [1, 0, 2, -1],
        [1, 0, 2, 0],
        [1, 0, 2, 1],
        [1, 1, 2, 2],
        [0, 1, 1, 2],
        [0, 1, 0, 2],
        [0, 1, -1, 2],
    ];
    let d2: usize = (dir + 2) % 8;
    let d6: usize = (dir + 6) % 8;
    let xi: i32 = x as i32;
    let yi: i32 = y as i32;
    proof {
        assert forall |dd: int, t2: int| 0 <= dd < 8 && 0 <= t2 < 2
            implies #[trigger] dir_off(dd, t2).0 == offs@[dd]@[2 * t2] as int
                && dir_off(dd, t2).1 == offs@[dd]@[2 * t2 + 1] as int by {}
    }
    [
        padded_get(inp, xi + offs[dir][0], yi + offs[dir][1], xs, ys, edges),
        padded_get(inp, xi - offs[dir][0], yi - offs[dir][1], xs, ys, edges),
        padded_get(inp, xi + offs[dir][2], yi + offs[dir][3], xs, ys, edges),
        padded_get(inp, xi - offs[dir][2], yi - offs[dir][3], xs, ys, edges),
        padded_get(inp, xi + offs[d2][0], yi + offs[d2][1], xs, ys, edges),
        padded_get(inp, xi - offs[d2][0], yi - offs[d2][1], xs, ys, edges),
        padded_get(inp, xi + offs[d2][2], yi + offs[d2][3], xs, ys, edges),
        padded_get(inp, xi - offs[d2][2], yi - offs[d2][3], xs, ys, edges),
        padded_get(inp, xi + offs[d6][0], yi + offs[d6][1], xs, ys, edges),
        padded_get(inp, xi - offs[d6][0], yi - offs[d6][1], xs, ys, edges),
        padded_get(inp, xi + offs[d6][2], yi + offs[d6][3], xs, ys, edges),
        padded_get(inp, xi - offs[d6][2], yi - offs[d6][3], xs, ys, edges),
    ]
}

/// Filter one pixel of the block.
#[verifier::rlimit(100)]
fn cdef_px_exec(
    inp: &PlaneRegion<'_>, x: usize, y: usize, xs: usize, ys: usize, edges: u8,
    pri_strength: i32, sec_strength: i32, dir: usize, damping: i32, coeff_shift: usize,
) -> (v: u16)
    requires
        inp.wf(),
        xs <= 8 && ys <= 8,
        x < xs && y < ys,
        dir < 8,
        0 <= pri_strength <= 0x8000,
        0 <= sec_strength <= 0x8000,
        0 <= damping <= 24,
        coeff_shift <= 8,
        0 <= inp.abs_x(-2),
        inp.abs_x(xs as int + 2) < inp.plane.cfg.stride,
        0 <= inp.abs_y(-2),
        inp.abs_y(ys as int + 2) < inp.plane.cfg.alloc_height,
    ensures
        v as int == cdef_px(*inp, x as int, y as int, xs as int, ys as int, edges,
            pri_strength as int, sec_strength as int, dir as int, damping as int,
            coeff_shift as nat),
{
    proof {
        reveal(tap_min);
        reveal(tap_max);
        reveal(cdef_sum);
        reveal(cdef_px);
    }
    let px = inp.plane.get(
        (inp.plane.cfg.xorigin as i64 + inp.rect.x as i64 + x as i64) as usize,
        (inp.plane.cfg.yorigin as i64 + inp.rect.y as i64 + y as i64) as usize,
    );
    proof {
        assert(px == inp.s(x as int, y as int));
    }
    let pri_shift: usize = if pri_strength > 0 {
        let m = crate::util::msb(pri_strength);
        proof {
            lemma_pow2_ilog2(pri_strength as int, m as nat);
        }
        if damping - m < 0 { 0 } else { (damping - m) as usize }
    } else {
        0
    };
    let sec_shift: usize = if sec_strength > 0 {
        let m = crate::util::msb(sec_strength);
        proof {
            lemma_pow2_ilog2(sec_strength as int, m as nat);
        }
        if damping - m < 0 { 0 } else { (damping - m) as usize }
    } else {
        0
    };
    let parity: u32 = ((pri_strength as u32) >> (coeff_shift as u32)) % 2;
    proof {
        vstd::bits::lemma_u32_shr_is_div(pri_strength as u32, coeff_shift as u32);
    }
    let pw0: i32 = if parity == 1 { 3 } else { 4 };
    let pw1: i32 = if parity == 1 { 3 } else { 2 };

    let taps = cdef_taps(inp, x, y, xs, ys, edges, dir);

    let c00p = constrain_exec(taps[0] as i32 - px as i32, pri_strength, pri_shift, damping);
    let c00m = constrain_exec(taps[1] as i32 - px as i32, pri_strength, pri_shift, damping);
    let c01p = constrain_exec(taps[2] as i32 - px as i32, pri_strength, pri_shift, damping);
    let c01m = constrain_exec(taps[3] as i32 - px as i32, pri_strength, pri_shift, damping);
    let c20p = constrain_exec(taps[4] as i32 - px as i32, sec_strength, sec_shift, damping);
    let c20m = constrain_exec(taps[5] as i32 - px as i32, sec_strength, sec_shift, damping);
    let c21p = constrain_exec(taps[6] as i32 - px as i32, sec_strength, sec_shift, damping);
    let c21m = constrain_exec(taps[7] as i32 - px as i32, sec_strength, sec_shift, damping);
    let c60p = constrain_exec(taps[8] as i32 - px as i32, sec_strength, sec_shift, damping);
    let c60m = constrain_exec(taps[9] as i32 - px as i32, sec_strength, sec_shift, damping);
    let c61p = constrain_exec(taps[10] as i32 - px as i32, sec_strength, sec_shift, damping);
    let c61m = constrain_exec(taps[11] as i32 - px as i32, sec_strength, sec_shift, damping);

    let sum: i32 = pw0 * (c00p + c00m) + pw1 * (c01p + c01m)
        + 2 * (c20p + c20m + c60p + c60m) + (c21p + c21m + c61p + c61m);

    let bias: i32 = if sum < 0 { 1 } else { 0 };
    let offset = ashr(sum + 8 - bias, 4);
    proof {
        vstd::arithmetic::power2::lemma2_to64();
        lemma_fdiv2_range((sum + 8 - bias) as int, 4, -0x100000, 0x100000);
    }

    let minv = umin(
        umin(umin(umin(taps[0], taps[1]), umin(taps[2], taps[3])),
            umin(umin(taps[4], taps[5]), umin(taps[6], taps[7]))),
        umin(umin(umin(taps[8], taps[9]), umin(taps[10], taps[11])), px),
    );
    let maxv = umax(
        umax(umax(umax(taps[0], taps[1]), umax(taps[2], taps[3])),
            umax(umax(taps[4], taps[5]), umax(taps[6], taps[7]))),
        umax(umax(umax(taps[8], taps[9]), umax(taps[10], taps[11])), px),
    );
    let out = clamp(px as i32 + offset, minv as i32, maxv as i32);
    proof {
        assert(minv as int == tap_min(*inp, x as int, y as int, xs as int, ys as int, edges, dir as int));
        assert(maxv as int == tap_max(*inp, x as int, y as int, xs as int, ys as int, edges, dir as int));
        assert(minv <= px <= maxv);
    }
    out as u16
}


/// Filter one 8 × 8 luma (or decimated chroma) block: for every pixel, the
/// direction-aligned primary taps and the two neighbouring secondary
/// directions are constrained, weighted and added to the centre, and the
/// result never overshoots the extrema of the samples read. Neighbours
/// masked off by `edges` read as the synthesized large value.
pub fn cdef_filter_block(
    dst: &mut Plane,
    dx: usize,
    dy: usize,
    inp: &PlaneRegion<'_>,
    pri_strength: i32,
    sec_strength: i32,
    dir: usize,
    damping: i32,
    bit_depth: usize,
    xdec: usize,
    ydec: usize,
    edges: u8,
)
    requires
        old(dst).wf(),
        inp.wf(),
        xdec <= 1 && ydec <= 1,
        dx + 8 <= old(dst).cfg.stride,
        dy + 8 <= old(dst).cfg.alloc_height,
        dir < 8,
        0 <= pri_strength <= 0x8000,
        0 <= sec_strength <= 0x8000,
        0 <= damping <= 24,
        8 <= bit_depth <= 12,
        0 <= inp.abs_x(-2),
        inp.abs_x(10) < inp.plane.cfg.stride,
        0 <= inp.abs_y(-2),
        inp.abs_y(10) < inp.plane.cfg.alloc_height,
    ensures
        final(dst).wf(),
        final(dst).cfg == old(dst).cfg,
        final(dst).data@.len() == old(dst).data@.len(),
        forall |i: int, j: int| 0 <= i < 8int / pow2(xdec as nat) as int && 0 <= j < 8int / pow2(ydec as nat) as int
            ==> #[trigger] final(dst).sample(dx + i, dy + j) as int == cdef_px(
                *inp, i, j, 8int / pow2(xdec as nat) as int, 8int / pow2(ydec as nat) as int,
                edges, pri_strength as int, sec_strength as int, dir as int,
                damping as int, (bit_depth - 8) as nat),
        forall |x: int, y: int|
            0 <= x < old(dst).cfg.stride && 0 <= y < old(dst).cfg.alloc_height
                && !(dx <= x < dx + 8int / pow2(xdec as nat) as int
                    && dy <= y < dy + 8int / pow2(ydec as nat) as int)
                ==> #[trigger] final(dst).sample(x, y) == old(dst).sample(x, y),
{
    proof {
        vstd::arithmetic::power2::lemma2_to64();
    }
    let xs: usize = if xdec == 0 { 8 } else { 4 };
    let ys: usize = if ydec == 0 { 8 } else { 4 };
    let coeff_shift: usize = bit_depth - 8;
    let mut j: usize = 0;
    while j < ys
        invariant
            dst.wf(),
            dst.cfg == old(dst).cfg,
            dst.data@.len() == old(dst).data@.len(),
            inp.wf(),
            xs == 8int / pow2(xdec as nat) as int,
            ys == 8int / pow2(ydec as nat) as int,
            xs <= 8 && ys <= 8 && xs >= 1 && ys >= 1,
            dx + 8 <= dst.cfg.stride,
            dy + 8 <= dst.cfg.alloc_height,
            dir < 8,
            0 <= pri_strength <= 0x8000,
            0 <= sec_strength <= 0x8000,
            0 <= damping <= 24,
            coeff_shift <= 8,
            coeff_shift == bit_depth - 8,
            0 <= inp.abs_x(-2),
            inp.abs_x(xs as int + 2) < inp.plane.cfg.stride,
            0 <= inp.abs_y(-2),
            inp.abs_y(ys as int + 2) < inp.plane.cfg.alloc_height,
            j <= ys,
            forall |i2: int, j2: int| 0 <= i2 < xs && 0 <= j2 < j
                ==> #[trigger] dst.sample(dx + i2, dy + j2) as int == cdef_px(
                    *inp, i2, j2, xs as int, ys as int, edges,
                    pri_strength as int, sec_strength as int, dir as int,
                    damping as int, coeff_shift as nat),
            forall |x: int, y: int|
                0 <= x < dst.cfg.stride && 0 <= y < dst.cfg.alloc_height
                    && !(dx <= x < dx + xs && dy <= y < dy + j)
                    ==> #[trigger] dst.sample(x, y) == old(dst).sample(x, y),
        decreases ys - j,
    {
        let mut i: usize = 0;
        while i < xs
            invariant
                dst.wf(),
                dst.cfg == old(dst).cfg,
                dst.data@.len() == old(dst).data@.len(),
                inp.wf(),
                xs <= 8 && ys <= 8 && xs >= 1 && ys >= 1,
                dx + 8 <= dst.cfg.stride,
                dy + 8 <= dst.cfg.alloc_height,
                dir < 8,
                0 <= pri_strength <= 0x8000,
                0 <= sec_strength <= 0x8000,
                0 <= damping <= 24,
                coeff_shift <= 8,
                0 <= inp.abs_x(-2),
                inp.abs_x(xs as int + 2) < inp.plane.cfg.stride,
                0 <= inp.abs_y(-2),
                inp.abs_y(ys as int + 2) < inp.plane.cfg.alloc_height,
                j < ys,
                i <= xs,
                forall |i2: int, j2: int| 0 <= i2 < xs && 0 <= j2 < j
                    ==> #[trigger] dst.sample(dx + i2, dy + j2) as int == cdef_px(
                        *inp, i2, j2, xs as int, ys as int, edges,
                        pri_strength as int, sec_strength as int, dir as int,
                        damping as int, coeff_shift as nat),
                forall |i2: int| 0 <= i2 < i
                    ==> #[trigger] dst.sample(dx + i2, dy + j as int) as int == cdef_px(
                        *inp, i2, j as int, xs as int, ys as int, edges,
                        pri_strength as int, sec_strength as int, dir as int,
                        damping as int, coeff_shift as nat),
                forall |x: int, y: int|
                    0 <= x < dst.cfg.stride && 0 <= y < dst.cfg.alloc_height
                        && !(dx <= x < dx + xs && dy <= y < dy + j)
                        && !(dx <= x < dx + i && y == dy + j)
                        ==> #[trigger] dst.sample(x, y) == old(dst).sample(x, y),
            decreases xs - i,
        {
            let v = cdef_px_exec(inp, i, j, xs, ys, edges, pri_strength, sec_strength,
                dir, damping, coeff_shift);
            dst.put(dx + i, dy + j, v);
            i = i + 1;
        }
        j = j + 1;
    }
}

} // verus!
