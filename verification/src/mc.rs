//! Sub-pixel motion compensation: 8-tap separable interpolation filters with
//! the fixed coefficient tables keyed by filter mode and fractional phase, the
//! single-pass `put` and high-precision `prep` entry points, and the compound
//! average `mc_avg`.

use vstd::prelude::*;
use crate::plane::{Plane, PlaneSlice};
use crate::util::{rshift, sclamp, round_shift, clamp, lemma_mul_abs_bound, lemma_rshift_range};

verus! {

/// Number of taps of the interpolation filters.
pub const SUBPEL_FILTER_SIZE: usize = 8;

/// Which family of interpolation filters a block uses.
#[derive(Debug, Clone, Copy, PartialEq, Eq, Structural)]
pub enum FilterMode {
    REGULAR,
    SMOOTH,
    SHARP,
    BILINEAR,
}

impl FilterMode {
    /// The position of this mode among the filter tables.
    pub open spec fn spec_idx(self) -> int {
        match self {
            FilterMode::REGULAR => 0,
            FilterMode::SMOOTH => 1,
            FilterMode::SHARP => 2,
            FilterMode::BILINEAR => 3,
        }
    }
}

/// The fixed sub-pixel filter tables: for each of the six families (regular,
/// smooth and sharp 8-tap, bilinear, and the narrow regular and smooth taps
/// for short blocks), one 8-tap row per fractional phase. Every row sums to
/// 128, the unit gain of the fixed-point filter.
pub open spec fn subpel_filters() -> Seq<Seq<Seq<int>>> {
    seq![
        seq![
            seq![0, 0, 0, 128, 0, 0, 0, 0],
            seq![0, 2, -6, 126, 8, -2, 0, 0],
            seq![0, 2, -10, 122, 18, -4, 0, 0],
            seq![0, 2, -12, 116, 28, -8, 2, 0],
            seq![0, 2, -14, 110, 38, -10, 2, 0],
            seq![0, 2, -14, 102, 48, -12, 2, 0],
            seq![0, 2, -16, 94, 58, -12, 2, 0],
            seq![0, 2, -14, 84, 66, -12, 2, 0],
            seq![0, 2, -14, 76, 76, -14, 2, 0],
            seq![0, 2, -12, 66, 84, -14, 2, 0],
            seq![0, 2, -12, 58, 94, -16, 2, 0],
            seq![0, 2, -12, 48, 102, -14, 2, 0],
            seq![0, 2, -10, 38, 110, -14, 2, 0],
            seq![0, 2, -8, 28, 116, -12, 2, 0],
            seq![0, 0, -4, 18, 122, -10, 2, 0],
            seq![0, 0, -2, 8, 126, -6, 2, 0]
        ],
        seq![
            seq![0, 0, 0, 128, 0, 0, 0, 0],
            seq![0, 2, 28, 62, 34, 2, 0, 0],
            seq![0, 0, 26, 62, 36, 4, 0, 0],
            seq![0, 0, 22, 62, 40, 4, 0, 0],
            seq![0, 0, 20, 60, 42, 6, 0, 0],
            seq![0, 0, 18, 58, 44, 8, 0, 0],
            seq![0, 0, 16, 56, 46, 10, 0, 0],
            seq![0, -2, 16, 54, 48, 12, 0, 0],
            seq![0, -2, 14, 52, 52, 14, -2, 0],
            seq![0, 0, 12, 48, 54, 16, -2, 0],
            seq![0, 0, 10, 46, 56, 16, 0, 0],
            seq![0, 0, 8, 44, 58, 18, 0, 0],
            seq![0, 0, 6, 42, 60, 20, 0, 0],
            seq![0, 0, 4, 40, 62, 22, 0, 0],
            seq![0, 0, 4, 36, 62, 26, 0, 0],
            seq![0, 0, 2, 34, 62, 28, 2, 0]
        ],
        seq![
            seq![0, 0, 0, 128, 0, 0, 0, 0],
            seq![-2, 2, -6, 126, 8, -2, 2, 0],
            seq![-2, 6, -12, 124, 16, -6, 4, -2],
            seq![-2, 8, -18, 120, 26, -10, 6, -2],
            seq![-4, 10, -22, 116, 38, -14, 6, -2],
            seq![-4, 10, -22, 108, 48, -18, 8, -2],
            seq![-4, 10, -24, 100, 60, -20, 8, -2],
            seq![-4, 10, -24, 90, 70, -22, 10, -2],
            seq![-4, 12, -24, 80, 80, -24, 12, -4],
            seq![-2, 10, -22, 70, 90, -24, 10, -4],
            seq![-2, 8, -20, 60, 100, -24, 10, -4],
            seq![-2, 8, -18, 48, 108, -22, 10, -4],
            seq![-2, 6, -14, 38, 116, -22, 10, -4],
            seq![-2, 6, -10, 26, 120, -18, 8, -2],
            seq![-2, 4, -6, 16, 124, -12, 6, -2],
            seq![0, 2, -2, 8, 126, -6, 2, -2]
        ],
        seq![
            seq![0, 0, 0, 128, 0, 0, 0, 0],
            seq![0, 0, 0, 120, 8, 0, 0, 0],
            seq![0, 0, 0, 112, 16, 0, 0, 0],
            seq![0, 0, 0, 104, 24, 0, 0, 0],
            seq![0, 0, 0, 96, 32, 0, 0, 0],
            seq![0, 0, 0, 88, 40, 0, 0, 0],
            seq![0, 0, 0, 80, 48, 0, 0, 0],
            seq![0, 0, 0, 72, 56, 0, 0, 0],
            seq![0, 0, 0, 64, 64, 0, 0, 0],
            seq![0, 0, 0, 56, 72, 0, 0, 0],
            seq![0, 0, 0, 48, 80, 0, 0, 0],
            seq![0, 0, 0, 40, 88, 0, 0, 0],
            seq![0, 0, 0, 32, 96, 0, 0, 0],
            seq![0, 0, 0, 24, 104, 0, 0, 0],
            seq![0, 0, 0, 16, 112, 0, 0, 0],
            seq![0, 0, 0, 8, 120, 0, 0, 0]
        ],
        seq![
            seq![0, 0, 0, 128, 0, 0, 0, 0],
            seq![0, 0, -4, 126, 8, -2, 0, 0],
            seq![0, 0, -8, 122, 18, -4, 0, 0],
            seq![0, 0, -10, 116, 28, -6, 0, 0],
            seq![0, 0, -12, 110, 38, -8, 0, 0],
            seq![0, 0, -12, 102, 48, -10, 0, 0],
            seq![0, 0, -14, 94, 58, -10, 0, 0],
            seq![0, 0, -12, 84, 66, -10, 0, 0],
            seq![0, 0, -12, 76, 76, -12, 0, 0],
            seq![0, 0, -10, 66, 84, -12, 0, 0],
            seq![0, 0, -10, 58, 94, -14, 0, 0],
            seq![0, 0, -10, 48, 102, -12, 0, 0],
            seq![0, 0, -8, 38, 110, -12, 0, 0],
            seq![0, 0, -6, 28, 116, -10, 0, 0],
            seq![0, 0, -4, 18, 122, -8, 0, 0],
            seq![0, 0, -2, 8, 126, -4, 0, 0]
        ],
        seq![
            seq![0, 0, 0, 128, 0, 0, 0, 0],
            seq![0, 0, 30, 62, 34, 2, 0, 0],
            seq![0, 0, 26, 62, 36, 4, 0, 0],
            seq![0, 0, 22, 62, 40, 4, 0, 0],
            seq![0, 0, 20, 60, 42, 6, 0, 0],
            seq![0, 0, 18, 58, 44, 8, 0, 0],
            seq![0, 0, 16, 56, 46, 10, 0, 0],
            seq![0, 0, 14, 54, 48, 12, 0, 0],
            seq![0, 0, 12, 52, 52, 12, 0, 0],
            seq![0, 0, 12, 48, 54, 14, 0, 0],
            seq![0, 0, 10, 46, 56, 16, 0, 0],
            seq![0, 0, 8, 44, 58, 18, 0, 0],
            seq![0, 0, 6, 42, 60, 20, 0, 0],
            seq![0, 0, 4, 40, 62, 22, 0, 0],
            seq![0, 0, 4, 36, 62, 26, 0, 0],
            seq![0, 0, 2, 34, 62, 30, 0, 0]
        ]
    ]
}

/// Which table a `(mode, block length)` pair selects: the narrow-tap tables
/// stand in for regular/smooth/sharp on blocks of at most four samples.
pub open spec fn spec_filter_index(mode: FilterMode, length: int) -> int {
    if mode == FilterMode::BILINEAR || length > 4 {
        mode.spec_idx()
    } else {
        (if mode.spec_idx() < 1 { mode.spec_idx() } else { 1 }) + 4
    }
}

/// The 8-tap row that `(mode, frac, length)` selects.
pub open spec fn spec_filter(mode: FilterMode, frac: int, length: int) -> Seq<int> {
    subpel_filters()[spec_filter_index(mode, length)][frac]
}

/// Select the 8-tap coefficient row for a filter mode, fractional position,
/// and block length.
#[verifier::rlimit(100)]
pub fn get_filter(mode: FilterMode, frac: i32, length: usize) -> (r: [i32; 8])
    requires
        0 <= frac < 16,
    ensures
        forall |k: int| 0 <= k < 8 ==> r@[k] as int == spec_filter(mode, frac as int, length as int)[k],
        forall |k: int| 0 <= k < 8 ==> -128 <= #[trigger] r@[k] <= 128,
        pos8(spec_filter(mode, frac as int, length as int)) <= 184,
        neg8(spec_filter(mode, frac as int, length as int)) >= -56,
{
    let table: [[[i32; 8]; 16]; 6] = [
        [
            [0, 0, 0, 128, 0, 0, 0, 0],
            [0, 2, -6, 126, 8, -2, 0, 0],
            [0, 2, -10, 122, 18, -4, 0, 0],
            [0, 2, -12, 116, 28, -8, 2, 0],
            [0, 2, -14, 110, 38, -10, 2, 0],
            [0, 2, -14, 102, 48, -12, 2, 0],
            [0, 2, -16, 94, 58, -12, 2, 0],
            [0, 2, -14, 84, 66, -12, 2, 0],
            [0, 2, -14, 76, 76, -14, 2, 0],
            [0, 2, -12, 66, 84, -14, 2, 0],
            [0, 2, -12, 58, 94, -16, 2, 0],
            [0, 2, -12, 48, 102, -14, 2, 0],
            [0, 2, -10, 38, 110, -14, 2, 0],
            [0, 2, -8, 28, 116, -12, 2, 0],
            [0, 0, -4, 18, 122, -10, 2, 0],
            [0, 0, -2, 8, 126, -6, 2, 0]
        ],
        [
            [0, 0, 0, 128, 0, 0, 0, 0],
            [0, 2, 28, 62, 34, 2, 0, 0],
            [0, 0, 26, 62, 36, 4, 0, 0],
            [0, 0, 22, 62, 40, 4, 0, 0],
            [0, 0, 20, 60, 42, 6, 0, 0],
            [0, 0, 18, 58, 44, 8, 0, 0],
            [0, 0, 16, 56, 46, 10, 0, 0],
            [0, -2, 16, 54, 48, 12, 0, 0],
            [0, -2, 14, 52, 52, 14, -2, 0],
            [0, 0, 12, 48, 54, 16, -2, 0],
            [0, 0, 10, 46, 56, 16, 0, 0],
            [0, 0, 8, 44, 58, 18, 0, 0],
            [0, 0, 6, 42, 60, 20, 0, 0],
            [0, 0, 4, 40, 62, 22, 0, 0],
            [0, 0, 4, 36, 62, 26, 0, 0],
            [0, 0, 2, 34, 62, 28, 2, 0]
        ],
        [
            [0, 0, 0, 128, 0, 0, 0, 0],
            [-2, 2, -6, 126, 8, -2, 2, 0],
            [-2, 6, -12, 124, 16, -6, 4, -2],
            [-2, 8, -18, 120, 26, -10, 6, -2],
            [-4, 10, -22, 116, 38, -14, 6, -2],
            [-4, 10, -22, 108, 48, -18, 8, -2],
            [-4, 10, -24, 100, 60, -20, 8, -2],
            [-4, 10, -24, 90, 70, -22, 10, -2],
            [-4, 12, -24, 80, 80, -24, 12, -4],
            [-2, 10, -22, 70, 90, -24, 10, -4],
            [-2, 8, -20, 60, 100, -24, 10, -4],
            [-2, 8, -18, 48, 108, -22, 10, -4],
            [-2, 6, -14, 38, 116, -22, 10, -4],
            [-2, 6, -10, 26, 120, -18, 8, -2],
            [-2, 4, -6, 16, 124, -12, 6, -2],
            [0, 2, -2, 8, 126, -6, 2, -2]
        ],
        [
            [0, 0, 0, 128, 0, 0, 0, 0],
            [0, 0, 0, 120, 8, 0, 0, 0],
            [0, 0, 0, 112, 16, 0, 0, 0],
            [0, 0, 0, 104, 24, 0, 0, 0],
            [0, 0, 0, 96, 32, 0, 0, 0],
            [0, 0, 0, 88, 40, 0, 0, 0],
            [0, 0, 0, 80, 48, 0, 0, 0],
            [0, 0, 0, 72, 56, 0, 0, 0],
            [0, 0, 0, 64, 64, 0, 0, 0],
            [0, 0, 0, 56, 72, 0, 0, 0],
            [0, 0, 0, 48, 80, 0, 0, 0],
            [0, 0, 0, 40, 88, 0, 0, 0],
            [0, 0, 0, 32, 96, 0, 0, 0],
            [0, 0, 0, 24, 104, 0, 0, 0],
            [0, 0, 0, 16, 112, 0, 0, 0],
            [0, 0, 0, 8, 120, 0, 0, 0]
        ],
        [
            [0, 0, 0, 128, 0, 0, 0, 0],
            [0, 0, -4, 126, 8, -2, 0, 0],
            [0, 0, -8, 122, 18, -4, 0, 0],
            [0, 0, -10, 116, 28, -6, 0, 0],
            [0, 0, -12, 110, 38, -8, 0, 0],
            [0, 0, -12, 102, 48, -10, 0, 0],
            [0, 0, -14, 94, 58, -10, 0, 0],
            [0, 0, -12, 84, 66, -10, 0, 0],
            [0, 0, -12, 76, 76, -12, 0, 0],
            [0, 0, -10, 66, 84, -12, 0, 0],
            [0, 0, -10, 58, 94, -14, 0, 0],
            [0, 0, -10, 48, 102, -12, 0, 0],
            [0, 0, -8, 38, 110, -12, 0, 0],
            [0, 0, -6, 28, 116, -10, 0, 0],
            [0, 0, -4, 18, 122, -8, 0, 0],
            [0, 0, -2, 8, 126, -4, 0, 0]
        ],
        [
            [0, 0, 0, 128, 0, 0, 0, 0],
            [0, 0, 30, 62, 34, 2, 0, 0],
            [0, 0, 26, 62, 36, 4, 0, 0],
            [0, 0, 22, 62, 40, 4, 0, 0],
            [0, 0, 20, 60, 42, 6, 0, 0],
            [0, 0, 18, 58, 44, 8, 0, 0],
            [0, 0, 16, 56, 46, 10, 0, 0],
            [0, 0, 14, 54, 48, 12, 0, 0],
            [0, 0, 12, 52, 52, 12, 0, 0],
            [0, 0, 12, 48, 54, 14, 0, 0],
            [0, 0, 10, 46, 56, 16, 0, 0],
            [0, 0, 8, 44, 58, 18, 0, 0],
            [0, 0, 6, 42, 60, 20, 0, 0],
            [0, 0, 4, 40, 62, 22, 0, 0],
            [0, 0, 4, 36, 62, 26, 0, 0],
            [0, 0, 2, 34, 62, 30, 0, 0]
        ]
    ];
    let mode_idx: usize = match mode {
        FilterMode::REGULAR => 0,
        FilterMode::SMOOTH => 1,
        FilterMode::SHARP => 2,
        FilterMode::BILINEAR => 3,
    };
    let filter_idx: usize = if matches!(mode, FilterMode::BILINEAR) || length > 4 {
        mode_idx
    } else {
        (if mode_idx < 1 { mode_idx } else { 1 }) + 4
    };
    let row = table[filter_idx][frac as usize];
    proof {
        assert forall |k: int| 0 <= k < 8
            implies row@[k] as int == spec_filter(mode, frac as int, length as int)[k]
                && -128 <= row@[k] <= 128 by {
            assert(table@[filter_idx as int]@[frac as int]@[k]
                == subpel_filters()[filter_idx as int][frac as int][k]);
        }
    }
    row
}

/// Dot product of an 8-tap coefficient row with eight sample values.
pub open spec fn conv8(f: Seq<int>, v: Seq<int>) -> int {
    f[0] * v[0] + f[1] * v[1] + f[2] * v[2] + f[3] * v[3]
        + f[4] * v[4] + f[5] * v[5] + f[6] * v[6] + f[7] * v[7]
}

/// The horizontal tap window of block cell (`i`, `j`): eight samples of row
/// `sy + j` centred left of column `sx + i`.
pub open spec fn hwin(p: Plane, sx: int, sy: int, i: int, j: int) -> Seq<int> {
    Seq::new(8, |k: int| p.sample(sx + i + k - 3, sy + j) as int)
}

/// The vertical tap window of block cell (`i`, `j`).
pub open spec fn vwin(p: Plane, sx: int, sy: int, i: int, j: int) -> Seq<int> {
    Seq::new(8, |k: int| p.sample(sx + i, sy + j + k - 3) as int)
}

/// One value of the high-precision intermediate row of the two-pass filter:
/// the horizontal pass rounded down by the first-stage shift.
pub open spec fn mid_val(p: Plane, sx: int, sy: int, xf: Seq<int>, i: int, j: int) -> int {
    rshift(conv8(xf, hwin(p, sx, sy, i, j)), 3)
}

/// The vertical tap window over the intermediate rows.
pub open spec fn mid_win(p: Plane, sx: int, sy: int, xf: Seq<int>, i: int, j: int) -> Seq<int> {
    Seq::new(8, |k: int| mid_val(p, sx, sy, xf, i, j + k - 3))
}

/// The source window of a `w` × `h` interpolation at (`sx`, `sy`) lies within
/// the allocation and holds 8-bit sample values.
pub open spec fn mc_src_ok(p: Plane, sx: int, sy: int, w: int, h: int) -> bool {
    &&& p.wf()
    &&& 3 <= sx && sx + w + 4 <= p.cfg.stride
    &&& 3 <= sy && sy + h + 4 <= p.cfg.alloc_height
    &&& forall |x: int, y: int|
        sx - 3 <= x < sx + w + 4 && sy - 3 <= y < sy + h + 4
            ==> #[trigger] p.sample(x, y) < 256
}

/// What `put_8tap` stores at block cell (`i`, `j`): a copy for the zero
/// phases, a single 8-tap pass rounded by 7 for one fractional axis, and the
/// separable two-pass filter with the 3-then-11 shift split for both, each
/// result clamped to the 8-bit sample range.
pub open spec fn put_8tap_val(
    p: Plane, sx: int, sy: int, i: int, j: int,
    col_frac: int, row_frac: int,
    mode_x: FilterMode, mode_y: FilterMode,
    w: int, h: int,
) -> int {
    let xf = spec_filter(mode_x, col_frac, w);
    let yf = spec_filter(mode_y, row_frac, h);
    if col_frac == 0 && row_frac == 0 {
        p.sample(sx + i, sy + j) as int
    } else if col_frac == 0 {
        sclamp(rshift(conv8(yf, vwin(p, sx, sy, i, j)), 7), 0, 255)
    } else if row_frac == 0 {
        sclamp(rshift(rshift(conv8(xf, hwin(p, sx, sy, i, j)), 3), 4), 0, 255)
    } else {
        sclamp(rshift(conv8(yf, mid_win(p, sx, sy, xf, i, j)), 11), 0, 255)
    }
}

/// What `prep_8tap` stores at block cell (`i`, `j`): the same filter passes
/// kept at intermediate precision (four extra bits) without clamping.
pub open spec fn prep_8tap_val(
    p: Plane, sx: int, sy: int, i: int, j: int,
    col_frac: int, row_frac: int,
    mode_x: FilterMode, mode_y: FilterMode,
    w: int, h: int,
) -> int {
    let xf = spec_filter(mode_x, col_frac, w);
    let yf = spec_filter(mode_y, row_frac, h);
    if col_frac == 0 && row_frac == 0 {
        p.sample(sx + i, sy + j) * 16
    } else if col_frac == 0 {
        rshift(conv8(yf, vwin(p, sx, sy, i, j)), 3)
    } else if row_frac == 0 {
        rshift(conv8(xf, hwin(p, sx, sy, i, j)), 3)
    } else {
        rshift(conv8(yf, mid_win(p, sx, sy, xf, i, j)), 7)
    }
}

/// The positive part of a value.
pub open spec fn pmax(a: int) -> int {
    if a > 0 { a } else { 0 }
}

/// The negative part of a value.
pub open spec fn nmin(a: int) -> int {
    if a < 0 { a } else { 0 }
}

/// Sum of the positive taps of a filter row.
pub open spec fn pos8(f: Seq<int>) -> int {
    pmax(f[0]) + pmax(f[1]) + pmax(f[2]) + pmax(f[3])
        + pmax(f[4]) + pmax(f[5]) + pmax(f[6]) + pmax(f[7])
}

/// Sum of the negative taps of a filter row.
pub open spec fn neg8(f: Seq<int>) -> int {
    nmin(f[0]) + nmin(f[1]) + nmin(f[2]) + nmin(f[3])
        + nmin(f[4]) + nmin(f[5]) + nmin(f[6]) + nmin(f[7])
}

/// An 8-tap dot product over values in `[vlo, vhi]` is bounded by the tap
/// sums weighted with the window bounds.
pub proof fn lemma_conv8_bounds(f: Seq<int>, v: Seq<int>, vlo: int, vhi: int)
    requires
        vlo <= vhi,
        forall |k: int| 0 <= k < 8 ==> vlo <= #[trigger] v[k] <= vhi,
    ensures
        conv8(f, v) <= pos8(f) * vhi + neg8(f) * vlo,
        conv8(f, v) >= neg8(f) * vhi + pos8(f) * vlo,
{
    assert forall |k: int| 0 <= k < 8
        implies #[trigger] (f[k] * v[k]) <= pmax(f[k]) * vhi + nmin(f[k]) * vlo
            && f[k] * v[k] >= nmin(f[k]) * vhi + pmax(f[k]) * vlo by {
        if f[k] >= 0 {
            assert(f[k] * vlo <= f[k] * v[k] <= f[k] * vhi) by (nonlinear_arith)
                requires f[k] >= 0 && vlo <= v[k] <= vhi;
        } else {
            assert(f[k] * vhi <= f[k] * v[k] <= f[k] * vlo) by (nonlinear_arith)
                requires f[k] < 0 && vlo <= v[k] <= vhi;
        }
    }
    assert(pos8(f) * vhi == pmax(f[0]) * vhi + pmax(f[1]) * vhi + pmax(f[2]) * vhi
        + pmax(f[3]) * vhi + pmax(f[4]) * vhi + pmax(f[5]) * vhi + pmax(f[6]) * vhi
        + pmax(f[7]) * vhi) by (nonlinear_arith);
    assert(neg8(f) * vlo == nmin(f[0]) * vlo + nmin(f[1]) * vlo + nmin(f[2]) * vlo
        + nmin(f[3]) * vlo + nmin(f[4]) * vlo + nmin(f[5]) * vlo + nmin(f[6]) * vlo
        + nmin(f[7]) * vlo) by (nonlinear_arith);
    assert(neg8(f) * vhi == nmin(f[0]) * vhi + nmin(f[1]) * vhi + nmin(f[2]) * vhi
        + nmin(f[3]) * vhi + nmin(f[4]) * vhi + nmin(f[5]) * vhi + nmin(f[6]) * vhi
        + nmin(f[7]) * vhi) by (nonlinear_arith);
    assert(pos8(f) * vlo == pmax(f[0]) * vlo + pmax(f[1]) * vlo + pmax(f[2]) * vlo
        + pmax(f[3]) * vlo + pmax(f[4]) * vlo + pmax(f[5]) * vlo + pmax(f[6]) * vlo
        + pmax(f[7]) * vlo) by (nonlinear_arith);
}

/// One tap product, kept within `i32`.
fn mul_tap(f: i32, v: i32) -> (r: i32)
    requires
        -128 <= f <= 128,
        -0x10000 <= v <= 0x10000,
    ensures
        r as int == f * v,
        -0x80_0000 <= r <= 0x80_0000,
{
    proof {
        lemma_mul_abs_bound(f as int, v as int, 128, 0x10000);
    }
    f * v
}

/// Horizontal 8-tap pass at absolute window start (`x3`, `y`).
fn filt8_h(p: &Plane, x3: usize, y: usize, f: &[i32; 8], Ghost(ff): Ghost<Seq<int>>) -> (s: i32)
    requires
        p.wf(),
        x3 + 8 <= p.cfg.stride,
        y < p.cfg.alloc_height,
        forall |k: int| 0 <= k < 8 ==> #[trigger] f@[k] as int == ff[k],
        forall |k: int| 0 <= k < 8 ==> -128 <= #[trigger] f@[k] <= 128,
    ensures
        s as int == conv8(ff, Seq::new(8, |k: int| p.sample(x3 + k, y as int) as int)),
        -0x400_0000 <= s <= 0x400_0000,
{
    let t0 = mul_tap(f[0], p.get(x3, y) as i32);
    let t1 = mul_tap(f[1], p.get(x3 + 1, y) as i32);
    let t2 = mul_tap(f[2], p.get(x3 + 2, y) as i32);
    let t3 = mul_tap(f[3], p.get(x3 + 3, y) as i32);
    let t4 = mul_tap(f[4], p.get(x3 + 4, y) as i32);
    let t5 = mul_tap(f[5], p.get(x3 + 5, y) as i32);
    let t6 = mul_tap(f[6], p.get(x3 + 6, y) as i32);
    let t7 = mul_tap(f[7], p.get(x3 + 7, y) as i32);
    t0 + t1 + t2 + t3 + t4 + t5 + t6 + t7
}

/// Vertical 8-tap pass at absolute window start (`x`, `y3`).
fn filt8_v(p: &Plane, x: usize, y3: usize, f: &[i32; 8], Ghost(ff): Ghost<Seq<int>>) -> (s: i32)
    requires
        p.wf(),
        x < p.cfg.stride,
        y3 + 8 <= p.cfg.alloc_height,
        forall |k: int| 0 <= k < 8 ==> #[trigger] f@[k] as int == ff[k],
        forall |k: int| 0 <= k < 8 ==> -128 <= #[trigger] f@[k] <= 128,
    ensures
        s as int == conv8(ff, Seq::new(8, |k: int| p.sample(x as int, y3 + k) as int)),
        -0x400_0000 <= s <= 0x400_0000,
{
    let t0 = mul_tap(f[0], p.get(x, y3) as i32);
    let t1 = mul_tap(f[1], p.get(x, y3 + 1) as i32);
    let t2 = mul_tap(f[2], p.get(x, y3 + 2) as i32);
    let t3 = mul_tap(f[3], p.get(x, y3 + 3) as i32);
    let t4 = mul_tap(f[4], p.get(x, y3 + 4) as i32);
    let t5 = mul_tap(f[5], p.get(x, y3 + 5) as i32);
    let t6 = mul_tap(f[6], p.get(x, y3 + 6) as i32);
    let t7 = mul_tap(f[7], p.get(x, y3 + 7) as i32);
    t0 + t1 + t2 + t3 + t4 + t5 + t6 + t7
}

/// Vertical 8-tap pass over the intermediate buffer, at row `r`, column `c`.
fn filt8_mid(t: &Vec<i16>, width: usize, c: usize, r: usize, f: &[i32; 8], Ghost(ff): Ghost<Seq<int>>) -> (s: i32)
    requires
        c < width,
        (r + 8) * width <= t@.len(),
        forall |k: int| 0 <= k < 8 ==> #[trigger] f@[k] as int == ff[k],
        forall |k: int| 0 <= k < 8 ==> -128 <= #[trigger] f@[k] <= 128,
    ensures
        s as int == conv8(ff, Seq::new(8, |k: int| t@[(r + k) * width + c] as int)),
        -0x400_0000 <= s <= 0x400_0000,
{
    let tlen: usize = t.len();
    proof {
        assert(t@.len() <= usize::MAX);
        assert forall |k: int| 0 <= k < 8 implies 0 <= #[trigger] ((r + k) * width) + c < t@.len() by {
            assert((r + k) * width + c < (r + 8) * width) by (nonlinear_arith)
                requires 0 <= k < 8 && c < width && r >= 0;
            assert((r + k) * width >= 0) by (nonlinear_arith)
                requires r + k >= 0 && width > 0;
        }
        assert((r as int + 1) * width == r * width + width) by (nonlinear_arith);
        assert((r as int + 2) * width == r * width + 2 * width) by (nonlinear_arith);
        assert((r as int + 3) * width == r * width + 3 * width) by (nonlinear_arith);
        assert((r as int + 4) * width == r * width + 4 * width) by (nonlinear_arith);
        assert((r as int + 5) * width == r * width + 5 * width) by (nonlinear_arith);
        assert((r as int + 6) * width == r * width + 6 * width) by (nonlinear_arith);
        assert((r as int + 7) * width == r * width + 7 * width) by (nonlinear_arith);
        assert((r as int + 8) * width == r * width + 8 * width) by (nonlinear_arith);
        assert((r + 0) * width + c < t@.len());
        assert((r as int + 0) * width == r * width) by (nonlinear_arith);
    }
    let base: usize = r * width + c;
    let t0 = mul_tap(f[0], t[base] as i32);
    let t1 = mul_tap(f[1], t[base + width] as i32);
    let t2 = mul_tap(f[2], t[base + 2 * width] as i32);
    let t3 = mul_tap(f[3], t[base + 3 * width] as i32);
    let t4 = mul_tap(f[4], t[base + 4 * width] as i32);
    let t5 = mul_tap(f[5], t[base + 5 * width] as i32);
    let t6 = mul_tap(f[6], t[base + 6 * width] as i32);
    let t7 = mul_tap(f[7], t[base + 7 * width] as i32);
    t0 + t1 + t2 + t3 + t4 + t5 + t6 + t7
}

/// Produce a predicted block by resampling `src` at the fractional-pixel
/// phase (`col_frac`, `row_frac`), writing final rounded samples clamped to
/// the 8-bit range into `dst` at (`dx`, `dy`).
pub fn put_8tap(
    dst: &mut Plane,
    dx: usize,
    dy: usize,
    src: PlaneSlice<'_>,
    width: usize,
    height: usize,
    col_frac: i32,
    row_frac: i32,
    mode_x: FilterMode,
    mode_y: FilterMode,
    bit_depth: usize,
)
    requires
        old(dst).wf(),
        dx + width <= old(dst).cfg.stride,
        dy + height <= old(dst).cfg.alloc_height,
        src.in_range(),
        1 <= width <= 128,
        1 <= height <= 128,
        0 <= col_frac < 16,
        0 <= row_frac < 16,
        bit_depth == 8,
        mc_src_ok(*src.plane, src.abs_x(0), src.abs_y(0), width as int, height as int),
    ensures
        final(dst).wf(),
        final(dst).cfg == old(dst).cfg,
        final(dst).data@.len() == old(dst).data@.len(),
        forall |i: int, j: int| 0 <= i < width && 0 <= j < height
            ==> #[trigger] final(dst).sample(dx + i, dy + j) as int == put_8tap_val(
                *src.plane, src.abs_x(0), src.abs_y(0), i, j,
                col_frac as int, row_frac as int, mode_x, mode_y,
                width as int, height as int),
        forall |x: int, y: int|
            0 <= x < old(dst).cfg.stride && 0 <= y < old(dst).cfg.alloc_height
                && !(dx <= x < dx + width && dy <= y < dy + height)
                ==> #[trigger] final(dst).sample(x, y) == old(dst).sample(x, y),
{
    let srcp: &Plane = src.plane;
    let sx: usize = (src.x as i64 + srcp.cfg.xorigin as i64) as usize;
    let sy: usize = (src.y as i64 + srcp.cfg.yorigin as i64) as usize;
    proof {
        assert(sx as int == src.abs_x(0));
        assert(sy as int == src.abs_y(0));
    }
    let x_filter = get_filter(mode_x, col_frac, width);
    let y_filter = get_filter(mode_y, row_frac, height);
    let ghost xf = spec_filter(mode_x, col_frac as int, width as int);
    let ghost yf = spec_filter(mode_y, row_frac as int, height as int);

    if col_frac == 0 && row_frac == 0 {
        let mut j: usize = 0;
        while j < height
            invariant
                dst.wf(),
                dst.cfg == old(dst).cfg,
                dst.data@.len() == old(dst).data@.len(),
                mc_src_ok(*srcp, sx as int, sy as int, width as int, height as int),
                1 <= width <= 128,
                1 <= height <= 128,
                dx + width <= dst.cfg.stride,
                dy + height <= dst.cfg.alloc_height,
                j <= height,
                col_frac == 0 && row_frac == 0,
                forall |i2: int, j2: int| 0 <= i2 < width && 0 <= j2 < j
                    ==> #[trigger] dst.sample(dx + i2, dy + j2) as int == put_8tap_val(
                        *srcp, sx as int, sy as int, i2, j2, col_frac as int,
                        row_frac as int, mode_x, mode_y, width as int, height as int),
                forall |x: int, y: int|
                    0 <= x < dst.cfg.stride && 0 <= y < dst.cfg.alloc_height
                        && !(dx <= x < dx + width && dy <= y < dy + j)
                        ==> #[trigger] dst.sample(x, y) == old(dst).sample(x, y),
            decreases height - j,
        {
            let mut i: usize = 0;
            while i < width
                invariant
                    dst.wf(),
                    dst.cfg == old(dst).cfg,
                    dst.data@.len() == old(dst).data@.len(),
                    mc_src_ok(*srcp, sx as int, sy as int, width as int, height as int),
                    1 <= width <= 128,
                    1 <= height <= 128,
                    dx + width <= dst.cfg.stride,
                    dy + height <= dst.cfg.alloc_height,
                    j < height,
                    i <= width,
                    col_frac == 0 && row_frac == 0,
                    forall |i2: int, j2: int| 0 <= i2 < width && 0 <= j2 < j
                        ==> #[trigger] dst.sample(dx + i2, dy + j2) as int == put_8tap_val(
                            *srcp, sx as int, sy as int, i2, j2, col_frac as int,
                            row_frac as int, mode_x, mode_y, width as int, height as int),
                    forall |i2: int| 0 <= i2 < i
                        ==> #[trigger] dst.sample(dx + i2, dy + j as int) as int == put_8tap_val(
                            *srcp, sx as int, sy as int, i2, j as int, col_frac as int,
                            row_frac as int, mode_x, mode_y, width as int, height as int),
                    forall |x: int, y: int|
                        0 <= x < dst.cfg.stride && 0 <= y < dst.cfg.alloc_height
                            && !(dx <= x < dx + width && dy <= y < dy + j)
                            && !(dx <= x < dx + i && y == dy + j)
                            ==> #[trigger] dst.sample(x, y) == old(dst).sample(x, y),
                decreases width - i,
            {
                let v = srcp.get(sx + i, sy + j);
                dst.put(dx + i, dy + j, v);
                i = i + 1;
            }
            j = j + 1;
        }
    } else if col_frac == 0 {
        let mut j: usize = 0;
        while j < height
            invariant
                dst.wf(),
                dst.cfg == old(dst).cfg,
                dst.data@.len() == old(dst).data@.len(),
                mc_src_ok(*srcp, sx as int, sy as int, width as int, height as int),
                1 <= width <= 128,
                1 <= height <= 128,
                dx + width <= dst.cfg.stride,
                dy + height <= dst.cfg.alloc_height,
                j <= height,
                col_frac == 0 && 0 < row_frac < 16,
                yf == spec_filter(mode_y, row_frac as int, height as int),
                forall |k: int| 0 <= k < 8 ==> #[trigger] y_filter@[k] as int == yf[k],
                forall |k: int| 0 <= k < 8 ==> -128 <= #[trigger] y_filter@[k] <= 128,
                forall |i2: int, j2: int| 0 <= i2 < width && 0 <= j2 < j
                    ==> #[trigger] dst.sample(dx + i2, dy + j2) as int == put_8tap_val(
                        *srcp, sx as int, sy as int, i2, j2, col_frac as int,
                        row_frac as int, mode_x, mode_y, width as int, height as int),
                forall |x: int, y: int|
                    0 <= x < dst.cfg.stride && 0 <= y < dst.cfg.alloc_height
                        && !(dx <= x < dx + width && dy <= y < dy + j)
                        ==> #[trigger] dst.sample(x, y) == old(dst).sample(x, y),
            decreases height - j,
        {
            let mut i: usize = 0;
            while i < width
                invariant
                    dst.wf(),
                    dst.cfg == old(dst).cfg,
                    dst.data@.len() == old(dst).data@.len(),
                    mc_src_ok(*srcp, sx as int, sy as int, width as int, height as int),
                    1 <= width <= 128,
                    1 <= height <= 128,
                    dx + width <= dst.cfg.stride,
                    dy + height <= dst.cfg.alloc_height,
                    j < height,
                    i <= width,
                    col_frac == 0 && 0 < row_frac < 16,
                    yf == spec_filter(mode_y, row_frac as int, height as int),
                    forall |k: int| 0 <= k < 8 ==> #[trigger] y_filter@[k] as int == yf[k],
                    forall |k: int| 0 <= k < 8 ==> -128 <= #[trigger] y_filter@[k] <= 128,
                    forall |i2: int, j2: int| 0 <= i2 < width && 0 <= j2 < j
                        ==> #[trigger] dst.sample(dx + i2, dy + j2) as int == put_8tap_val(
                            *srcp, sx as int, sy as int, i2, j2, col_frac as int,
                            row_frac as int, mode_x, mode_y, width as int, height as int),
                    forall |i2: int| 0 <= i2 < i
                        ==> #[trigger] dst.sample(dx + i2, dy + j as int) as int == put_8tap_val(
                            *srcp, sx as int, sy as int, i2, j as int, col_frac as int,
                            row_frac as int, mode_x, mode_y, width as int, height as int),
                    forall |x: int, y: int|
                        0 <= x < dst.cfg.stride && 0 <= y < dst.cfg.alloc_height
                            && !(dx <= x < dx + width && dy <= y < dy + j)
                            && !(dx <= x < dx + i && y == dy + j)
                            ==> #[trigger] dst.sample(x, y) == old(dst).sample(x, y),
                decreases width - i,
            {
                let s = filt8_v(srcp, sx + i, sy + j - 3, &y_filter, Ghost(yf));
                let v = clamp(round_shift(s, 7), 0, 255);
                proof {
                    assert(conv8(yf, Seq::new(8, |k: int| srcp.sample((sx + i) as int, (sy + j - 3) as int + k) as int))
                        == conv8(yf, vwin(*srcp, sx as int, sy as int, i as int, j as int)));
                }
                dst.put(dx + i, dy + j, v as u16);
                i = i + 1;
            }
            j = j + 1;
        }
    } else if row_frac == 0 {
        let mut j: usize = 0;
        while j < height
            invariant
                dst.wf(),
                dst.cfg == old(dst).cfg,
                dst.data@.len() == old(dst).data@.len(),
                mc_src_ok(*srcp, sx as int, sy as int, width as int, height as int),
                1 <= width <= 128,
                1 <= height <= 128,
                dx + width <= dst.cfg.stride,
                dy + height <= dst.cfg.alloc_height,
                j <= height,
                0 < col_frac < 16 && row_frac == 0,
                xf == spec_filter(mode_x, col_frac as int, width as int),
                forall |k: int| 0 <= k < 8 ==> #[trigger] x_filter@[k] as int == xf[k],
                forall |k: int| 0 <= k < 8 ==> -128 <= #[trigger] x_filter@[k] <= 128,
                forall |i2: int, j2: int| 0 <= i2 < width && 0 <= j2 < j
                    ==> #[trigger] dst.sample(dx + i2, dy + j2) as int == put_8tap_val(
                        *srcp, sx as int, sy as int, i2, j2, col_frac as int,
                        row_frac as int, mode_x, mode_y, width as int, height as int),
                forall |x: int, y: int|
                    0 <= x < dst.cfg.stride && 0 <= y < dst.cfg.alloc_height
                        && !(dx <= x < dx + width && dy <= y < dy + j)
                        ==> #[trigger] dst.sample(x, y) == old(dst).sample(x, y),
            decreases height - j,
        {
            let mut i: usize = 0;
            while i < width
                invariant
                    dst.wf(),
                    dst.cfg == old(dst).cfg,
                    dst.data@.len() == old(dst).data@.len(),
                    mc_src_ok(*srcp, sx as int, sy as int, width as int, height as int),
                    1 <= width <= 128,
                    1 <= height <= 128,
                    dx + width <= dst.cfg.stride,
                    dy + height <= dst.cfg.alloc_height,
                    j < height,
                    i <= width,
                    0 < col_frac < 16 && row_frac == 0,
                    xf == spec_filter(mode_x, col_frac as int, width as int),
                    forall |k: int| 0 <= k < 8 ==> #[trigger] x_filter@[k] as int == xf[k],
                    forall |k: int| 0 <= k < 8 ==> -128 <= #[trigger] x_filter@[k] <= 128,
                    forall |i2: int, j2: int| 0 <= i2 < width && 0 <= j2 < j
                        ==> #[trigger] dst.sample(dx + i2, dy + j2) as int == put_8tap_val(
                            *srcp, sx as int, sy as int, i2, j2, col_frac as int,
                            row_frac as int, mode_x, mode_y, width as int, height as int),
                    forall |i2: int| 0 <= i2 < i
                        ==> #[trigger] dst.sample(dx + i2, dy + j as int) as int == put_8tap_val(
                            *srcp, sx as int, sy as int, i2, j as int, col_frac as int,
                            row_frac as int, mode_x, mode_y, width as int, height as int),
                    forall |x: int, y: int|
                        0 <= x < dst.cfg.stride && 0 <= y < dst.cfg.alloc_height
                            && !(dx <= x < dx + width && dy <= y < dy + j)
                            && !(dx <= x < dx + i && y == dy + j)
                            ==> #[trigger] dst.sample(x, y) == old(dst).sample(x, y),
                decreases width - i,
            {
                let s = filt8_h(srcp, sx + i - 3, sy + j, &x_filter, Ghost(xf));
                let v = clamp(round_shift(round_shift(s, 3), 4), 0, 255);
                proof {
                    assert(conv8(xf, Seq::new(8, |k: int| srcp.sample((sx + i - 3) as int + k, (sy + j) as int) as int))
                        == conv8(xf, hwin(*srcp, sx as int, sy as int, i as int, j as int)));
                }
                dst.put(dx + i, dy + j, v as u16);
                i = i + 1;
            }
            j = j + 1;
        }
    } else {
        // Two-pass: a horizontal pass into a higher-precision intermediate
        // buffer covering seven extra rows, then a vertical pass.
        let mut mid: Vec<i16> = Vec::new();
        let mut r: usize = 0;
        while r < height + 7
            invariant
                mc_src_ok(*srcp, sx as int, sy as int, width as int, height as int),
                1 <= width <= 128,
                1 <= height <= 128,
                r <= height + 7,
                0 < col_frac < 16 && 0 < row_frac < 16,
                xf == spec_filter(mode_x, col_frac as int, width as int),
                forall |k: int| 0 <= k < 8 ==> #[trigger] x_filter@[k] as int == xf[k],
                forall |k: int| 0 <= k < 8 ==> -128 <= #[trigger] x_filter@[k] <= 128,
                pos8(xf) <= 184 && neg8(xf) >= -56,
                mid@.len() == r * width,
                forall |c2: int, r2: int| 0 <= c2 < width && 0 <= r2 < r
                    ==> #[trigger] mid@[crate::plane::gidx(width as int, c2, r2)] as int
                        == mid_val(*srcp, sx as int, sy as int, xf, c2, r2 - 3),
            decreases height + 7 - r,
        {
            let mut c: usize = 0;
            while c < width
                invariant
                    mc_src_ok(*srcp, sx as int, sy as int, width as int, height as int),
                    1 <= width <= 128,
                    1 <= height <= 128,
                    r < height + 7,
                    c <= width,
                    0 < col_frac < 16 && 0 < row_frac < 16,
                    xf == spec_filter(mode_x, col_frac as int, width as int),
                    forall |k: int| 0 <= k < 8 ==> #[trigger] x_filter@[k] as int == xf[k],
                    forall |k: int| 0 <= k < 8 ==> -128 <= #[trigger] x_filter@[k] <= 128,
                    pos8(xf) <= 184 && neg8(xf) >= -56,
                    mid@.len() == r * width + c,
                    forall |c2: int, r2: int| 0 <= c2 < width && 0 <= r2 < r
                        ==> #[trigger] mid@[crate::plane::gidx(width as int, c2, r2)] as int
                            == mid_val(*srcp, sx as int, sy as int, xf, c2, r2 - 3),
                    forall |c2: int| 0 <= c2 < c
                        ==> #[trigger] mid@[crate::plane::gidx(width as int, c2, r as int)] as int
                            == mid_val(*srcp, sx as int, sy as int, xf, c2, r as int - 3),
                decreases width - c,
            {
                let s = filt8_h(srcp, sx + c - 3, sy + r - 3, &x_filter, Ghost(xf));
                proof {
                    let win = Seq::new(8, |k: int| srcp.sample((sx + c - 3) as int + k, (sy + r - 3) as int) as int);
                    assert forall |k: int| 0 <= k < 8 implies 0 <= #[trigger] win[k] <= 255 by {
                        assert(srcp.sample(sx + c - 3 + k, sy + r - 3) < 256);
                    }
                    lemma_conv8_bounds(xf, win, 0, 255);
                    assert(s as int == conv8(xf, win));
                    assert(-14280 <= s <= 46920);
                    assert(conv8(xf, win) == conv8(xf, hwin(*srcp, sx as int, sy as int, c as int, r as int - 3)));
                }
                let m = round_shift(s, 3);
                proof {
                    vstd::arithmetic::power2::lemma2_to64();
                    lemma_rshift_range(s as int, 3, -14280, 46920);
                    assert(-1785 <= m <= 5865);
                }
                let ghost mid_pre = mid@;
                mid.push(m as i16);
                proof {
                    assert(m as i16 as int == m as int);
                    assert(mid@[mid_pre.len() as int] == m as i16);
                    assert forall |c2: int, r2: int| 0 <= c2 < width && 0 <= r2 < r
                        implies #[trigger] mid@[crate::plane::gidx(width as int, c2, r2)] as int
                            == mid_val(*srcp, sx as int, sy as int, xf, c2, r2 - 3) by {
                        crate::plane::lemma_gidx_bounds(width as int, r as int, c2, r2);
                        assert(crate::plane::gidx(width as int, c2, r2) < width * r);
                        assert(width * r == r * width) by (nonlinear_arith);
                        assert(width * r <= r * width + c);
                        assert(mid@[crate::plane::gidx(width as int, c2, r2)]
                            == mid_pre[crate::plane::gidx(width as int, c2, r2)]);
                    }
                    assert forall |c2: int| 0 <= c2 < c + 1
                        implies #[trigger] mid@[crate::plane::gidx(width as int, c2, r as int)] as int
                            == mid_val(*srcp, sx as int, sy as int, xf, c2, r as int - 3) by {
                        if c2 < c {
                            assert(crate::plane::gidx(width as int, c2, r as int) < r * width + c);
                            assert(crate::plane::gidx(width as int, c2, r as int) >= 0) by (nonlinear_arith)
                                requires c2 >= 0 && r >= 0 && width > 0;
                            assert(mid@[crate::plane::gidx(width as int, c2, r as int)]
                                == mid_pre[crate::plane::gidx(width as int, c2, r as int)]);
                        } else {
                            assert(crate::plane::gidx(width as int, c2, r as int) == r * width + c);
                            assert(mid@[crate::plane::gidx(width as int, c2, r as int)] == m as i16);
                        }
                    }
                }
                c = c + 1;
            }
            proof {
                assert(mid@.len() == (r + 1) * width) by (nonlinear_arith)
                    requires mid@.len() == r * width + width;
            }
            r = r + 1;
        }
        proof {
            assert((height + 7) * width == height * width + 7 * width) by (nonlinear_arith);
        }
        let mut j: usize = 0;
        while j < height
            invariant
                dst.wf(),
                dst.cfg == old(dst).cfg,
                dst.data@.len() == old(dst).data@.len(),
                mc_src_ok(*srcp, sx as int, sy as int, width as int, height as int),
                1 <= width <= 128,
                1 <= height <= 128,
                dx + width <= dst.cfg.stride,
                dy + height <= dst.cfg.alloc_height,
                j <= height,
                0 < col_frac < 16 && 0 < row_frac < 16,
                xf == spec_filter(mode_x, col_frac as int, width as int),
                yf == spec_filter(mode_y, row_frac as int, height as int),
                forall |k: int| 0 <= k < 8 ==> #[trigger] y_filter@[k] as int == yf[k],
                forall |k: int| 0 <= k < 8 ==> -128 <= #[trigger] y_filter@[k] <= 128,
                mid@.len() == (height + 7) * width,
                forall |c2: int, r2: int| 0 <= c2 < width && 0 <= r2 < height + 7
                    ==> #[trigger] mid@[crate::plane::gidx(width as int, c2, r2)] as int
                        == mid_val(*srcp, sx as int, sy as int, xf, c2, r2 - 3),
                forall |i2: int, j2: int| 0 <= i2 < width && 0 <= j2 < j
                    ==> #[trigger] dst.sample(dx + i2, dy + j2) as int == put_8tap_val(
                        *srcp, sx as int, sy as int, i2, j2, col_frac as int,
                        row_frac as int, mode_x, mode_y, width as int, height as int),
                forall |x: int, y: int|
                    0 <= x < dst.cfg.stride && 0 <= y < dst.cfg.alloc_height
                        && !(dx <= x < dx + width && dy <= y < dy + j)
                        ==> #[trigger] dst.sample(x, y) == old(dst).sample(x, y),
            decreases height - j,
        {
            let mut i: usize = 0;
            while i < width
                invariant
                    dst.wf(),
                    dst.cfg == old(dst).cfg,
                    dst.data@.len() == old(dst).data@.len(),
                    mc_src_ok(*srcp, sx as int, sy as int, width as int, height as int),
                    1 <= width <= 128,
                    1 <= height <= 128,
                    dx + width <= dst.cfg.stride,
                    dy + height <= dst.cfg.alloc_height,
                    j < height,
                    i <= width,
                    0 < col_frac < 16 && 0 < row_frac < 16,
                    xf == spec_filter(mode_x, col_frac as int, width as int),
                    yf == spec_filter(mode_y, row_frac as int, height as int),
                    forall |k: int| 0 <= k < 8 ==> #[trigger] y_filter@[k] as int == yf[k],
                    forall |k: int| 0 <= k < 8 ==> -128 <= #[trigger] y_filter@[k] <= 128,
                    mid@.len() == (height + 7) * width,
                    forall |c2: int, r2: int| 0 <= c2 < width && 0 <= r2 < height + 7
                        ==> #[trigger] mid@[crate::plane::gidx(width as int, c2, r2)] as int
                            == mid_val(*srcp, sx as int, sy as int, xf, c2, r2 - 3),
                    forall |i2: int, j2: int| 0 <= i2 < width && 0 <= j2 < j
                        ==> #[trigger] dst.sample(dx + i2, dy + j2) as int == put_8tap_val(
                            *srcp, sx as int, sy as int, i2, j2, col_frac as int,
                            row_frac as int, mode_x, mode_y, width as int, height as int),
                    forall |i2: int| 0 <= i2 < i
                        ==> #[trigger] dst.sample(dx + i2, dy + j as int) as int == put_8tap_val(
                            *srcp, sx as int, sy as int, i2, j as int, col_frac as int,
                            row_frac as int, mode_x, mode_y, width as int, height as int),
                    forall |x: int, y: int|
                        0 <= x < dst.cfg.stride && 0 <= y < dst.cfg.alloc_height
                            && !(dx <= x < dx + width && dy <= y < dy + j)
                            && !(dx <= x < dx + i && y == dy + j)
                            ==> #[trigger] dst.sample(x, y) == old(dst).sample(x, y),
                decreases width - i,
            {
                proof {
                    assert((j + 8) * width <= (height + 7) * width) by (nonlinear_arith)
                        requires j + 8 <= height + 7 && width > 0;
                }
                let s = filt8_mid(&mid, width, i, j, &y_filter, Ghost(yf));
                let v = clamp(round_shift(s, 11), 0, 255);
                proof {
                    let win = Seq::new(8, |k: int| mid@[(j + k) * width + i as int] as int);
                    assert forall |k: int| 0 <= k < 8
                        implies #[trigger] win[k] == mid_win(*srcp, sx as int, sy as int, xf, i as int, j as int)[k] by {
                        assert(crate::plane::gidx(width as int, i as int, j + k) == (j + k) * width + i);
                        assert(mid@[crate::plane::gidx(width as int, i as int, j + k)] as int
                            == mid_val(*srcp, sx as int, sy as int, xf, i as int, (j + k) - 3));
                    }
                    assert(conv8(yf, win) == conv8(yf, mid_win(*srcp, sx as int, sy as int, xf, i as int, j as int)));
                }
                dst.put(dx + i, dy + j, v as u16);
                i = i + 1;
            }
            j = j + 1;
        }
    }
}

/// Write one i16 entry of an intermediate buffer.
fn vset16(t: &mut Vec<i16>, i: usize, v: i16)
    requires
        i < old(t)@.len(),
    ensures
        final(t)@ == old(t)@.update(i as int, v),
        final(t)@.len() == old(t)@.len(),
{
    t[i] = v;
}


/// Horizontal filter pass value at block cell (`i`, `j`), first-stage
/// rounding applied.
fn stage_h(
    srcp: &Plane, sx: usize, sy: usize, i: usize, j: usize,
    width: usize, height: usize,
    f: &[i32; 8], Ghost(ff): Ghost<Seq<int>>,
) -> (m: i32)
    requires
        mc_src_ok(*srcp, sx as int, sy as int, width as int, height as int),
        width <= 128,
        height <= 128,
        i < width,
        -3 <= j - 3 && j <= height + 3,
        forall |k: int| 0 <= k < 8 ==> #[trigger] f@[k] as int == ff[k],
        forall |k: int| 0 <= k < 8 ==> -128 <= #[trigger] f@[k] <= 128,
        pos8(ff) <= 184 && neg8(ff) >= -56,
    ensures
        m as int == rshift(conv8(ff, hwin(*srcp, sx as int, sy as int, i as int, j - 3)), 3),
        -1785 <= m <= 5865,
{
    let s = filt8_h(srcp, sx + i - 3, sy + j - 3, f, Ghost(ff));
    proof {
        let win = Seq::new(8, |k: int| srcp.sample((sx + i - 3) as int + k, (sy + j - 3) as int) as int);
        assert forall |k: int| 0 <= k < 8 implies 0 <= #[trigger] win[k] <= 255 by {
            assert(srcp.sample(sx + i - 3 + k, sy + j - 3) < 256);
        }
        lemma_conv8_bounds(ff, win, 0, 255);
        assert(s as int == conv8(ff, win));
        assert(-14280 <= s <= 46920);
        assert(conv8(ff, win) == conv8(ff, hwin(*srcp, sx as int, sy as int, i as int, j - 3)));
    }
    let m = round_shift(s, 3);
    proof {
        vstd::arithmetic::power2::lemma2_to64();
        lemma_rshift_range(s as int, 3, -14280, 46920);
    }
    m
}

/// Vertical filter pass value at block cell (`i`, `j`), first-stage rounding
/// applied.
fn stage_v(
    srcp: &Plane, sx: usize, sy: usize, i: usize, j: usize,
    width: usize, height: usize,
    f: &[i32; 8], Ghost(ff): Ghost<Seq<int>>,
) -> (m: i32)
    requires
        mc_src_ok(*srcp, sx as int, sy as int, width as int, height as int),
        width <= 128,
        height <= 128,
        i < width,
        j < height,
        forall |k: int| 0 <= k < 8 ==> #[trigger] f@[k] as int == ff[k],
        forall |k: int| 0 <= k < 8 ==> -128 <= #[trigger] f@[k] <= 128,
        pos8(ff) <= 184 && neg8(ff) >= -56,
    ensures
        m as int == rshift(conv8(ff, vwin(*srcp, sx as int, sy as int, i as int, j as int)), 3),
        -1785 <= m <= 5865,
{
    let s = filt8_v(srcp, sx + i, sy + j - 3, f, Ghost(ff));
    proof {
        let win = Seq::new(8, |k: int| srcp.sample((sx + i) as int, (sy + j - 3) as int + k) as int);
        assert forall |k: int| 0 <= k < 8 implies 0 <= #[trigger] win[k] <= 255 by {
            assert(srcp.sample(sx + i, sy + j - 3 + k) < 256);
        }
        lemma_conv8_bounds(ff, win, 0, 255);
        assert(s as int == conv8(ff, win));
        assert(-14280 <= s <= 46920);
        assert(conv8(ff, win) == conv8(ff, vwin(*srcp, sx as int, sy as int, i as int, j as int)));
    }
    let m = round_shift(s, 3);
    proof {
        vstd::arithmetic::power2::lemma2_to64();
        lemma_rshift_range(s as int, 3, -14280, 46920);
    }
    m
}

/// Second (vertical) pass of the two-phase filter over the intermediate
/// buffer, rounded by the `prep` output shift.
fn stage_mid(
    mid: &Vec<i16>, srcp: &Plane, sx: usize, sy: usize, i: usize, j: usize,
    width: usize, height: usize,
    f: &[i32; 8], Ghost(ff): Ghost<Seq<int>>, Ghost(xf): Ghost<Seq<int>>,
) -> (m: i32)
    requires
        width <= 128,
        height <= 128,
        i < width,
        j < height,
        mid@.len() == (height + 7) * width,
        forall |c2: int, r2: int| 0 <= c2 < width && 0 <= r2 < height + 7
            ==> #[trigger] mid@[crate::plane::gidx(width as int, c2, r2)] as int
                    == mid_val(*srcp, sx as int, sy as int, xf, c2, r2 - 3)
                && -1785 <= mid@[crate::plane::gidx(width as int, c2, r2)] <= 5865,
        forall |k: int| 0 <= k < 8 ==> #[trigger] f@[k] as int == ff[k],
        forall |k: int| 0 <= k < 8 ==> -128 <= #[trigger] f@[k] <= 128,
        pos8(ff) <= 184 && neg8(ff) >= -56,
    ensures
        m as int == rshift(conv8(ff, mid_win(*srcp, sx as int, sy as int, xf, i as int, j as int)), 7),
        -5132 <= m <= 9212,
{
    proof {
        assert((j + 8) * width <= (height + 7) * width) by (nonlinear_arith)
            requires j + 8 <= height + 7 && width > 0;
    }
    let s = filt8_mid(mid, width, i, j, f, Ghost(ff));
    proof {
        let win = Seq::new(8, |k: int| mid@[(j + k) * width + i as int] as int);
        assert forall |k: int| 0 <= k < 8
            implies #[trigger] win[k] == mid_win(*srcp, sx as int, sy as int, xf, i as int, j as int)[k]
                && -1785 <= win[k] <= 5865 by {
            assert(crate::plane::gidx(width as int, i as int, j + k) == (j + k) * width + i);
            assert(mid@[crate::plane::gidx(width as int, i as int, j + k)] as int
                == mid_val(*srcp, sx as int, sy as int, xf, i as int, (j + k) - 3));
        }
        lemma_conv8_bounds(ff, win, -1785, 5865);
        assert(s as int == conv8(ff, win));
        assert(-656880 <= s <= 1179120);
        assert(conv8(ff, win) == conv8(ff, mid_win(*srcp, sx as int, sy as int, xf, i as int, j as int)));
    }
    let m = round_shift(s, 7);
    proof {
        vstd::arithmetic::power2::lemma2_to64();
        lemma_rshift_range(s as int, 7, -656880, 1179120);
    }
    m
}

/// Resample `src` at the fractional-pixel phase (`col_frac`, `row_frac`) into
/// the high-precision intermediate buffer `tmp` (row-major `width` × `height`),
/// keeping four extra bits of precision for later compound averaging.
#[verifier::rlimit(100)]
pub fn prep_8tap(
    tmp: &mut Vec<i16>,
    src: PlaneSlice<'_>,
    width: usize,
    height: usize,
    col_frac: i32,
    row_frac: i32,
    mode_x: FilterMode,
    mode_y: FilterMode,
    bit_depth: usize,
)
    requires
        width * height <= old(tmp)@.len(),
        src.in_range(),
        1 <= width <= 128,
        1 <= height <= 128,
        0 <= col_frac < 16,
        0 <= row_frac < 16,
        bit_depth == 8,
        mc_src_ok(*src.plane, src.abs_x(0), src.abs_y(0), width as int, height as int),
    ensures
        final(tmp)@.len() == old(tmp)@.len(),
        forall |i: int, j: int| 0 <= i < width && 0 <= j < height
            ==> #[trigger] final(tmp)@[crate::plane::gidx(width as int, i, j)] as int
                == prep_8tap_val(
                    *src.plane, src.abs_x(0), src.abs_y(0), i, j,
                    col_frac as int, row_frac as int, mode_x, mode_y,
                    width as int, height as int),
        forall |n: int| width * height <= n < old(tmp)@.len()
            ==> #[trigger] final(tmp)@[n] == old(tmp)@[n],
{
    let srcp: &Plane = src.plane;
    let tmp_len: usize = tmp.len();
    let sx: usize = (src.x as i64 + srcp.cfg.xorigin as i64) as usize;
    let sy: usize = (src.y as i64 + srcp.cfg.yorigin as i64) as usize;
    proof {
        assert(sx as int == src.abs_x(0));
        assert(sy as int == src.abs_y(0));
    }
    let x_filter = get_filter(mode_x, col_frac, width);
    let y_filter = get_filter(mode_y, row_frac, height);
    let ghost xf = spec_filter(mode_x, col_frac as int, width as int);
    let ghost yf = spec_filter(mode_y, row_frac as int, height as int);

    // The horizontal pass of the two-phase case, shared with nothing else.
    let mut mid: Vec<i16> = Vec::new();
    if col_frac != 0 && row_frac != 0 {
        let mut r: usize = 0;
        while r < height + 7
            invariant
                mc_src_ok(*srcp, sx as int, sy as int, width as int, height as int),
                1 <= width <= 128,
                1 <= height <= 128,
                r <= height + 7,
                0 < col_frac < 16 && 0 < row_frac < 16,
                xf == spec_filter(mode_x, col_frac as int, width as int),
                forall |k: int| 0 <= k < 8 ==> #[trigger] x_filter@[k] as int == xf[k],
                forall |k: int| 0 <= k < 8 ==> -128 <= #[trigger] x_filter@[k] <= 128,
                pos8(xf) <= 184 && neg8(xf) >= -56,
                mid@.len() == r * width,
                forall |c2: int, r2: int| 0 <= c2 < width && 0 <= r2 < r
                    ==> #[trigger] mid@[crate::plane::gidx(width as int, c2, r2)] as int
                            == mid_val(*srcp, sx as int, sy as int, xf, c2, r2 - 3)
                        && -1785 <= mid@[crate::plane::gidx(width as int, c2, r2)] <= 5865,
            decreases height + 7 - r,
        {
            let mut c: usize = 0;
            while c < width
                invariant
                    mc_src_ok(*srcp, sx as int, sy as int, width as int, height as int),
                    1 <= width <= 128,
                    1 <= height <= 128,
                    r < height + 7,
                    c <= width,
                    0 < col_frac < 16 && 0 < row_frac < 16,
                    xf == spec_filter(mode_x, col_frac as int, width as int),
                    forall |k: int| 0 <= k < 8 ==> #[trigger] x_filter@[k] as int == xf[k],
                    forall |k: int| 0 <= k < 8 ==> -128 <= #[trigger] x_filter@[k] <= 128,
                    pos8(xf) <= 184 && neg8(xf) >= -56,
                    mid@.len() == r * width + c,
                    forall |c2: int, r2: int| 0 <= c2 < width && 0 <= r2 < r
                        ==> #[trigger] mid@[crate::plane::gidx(width as int, c2, r2)] as int
                                == mid_val(*srcp, sx as int, sy as int, xf, c2, r2 - 3)
                            && -1785 <= mid@[crate::plane::gidx(width as int, c2, r2)] <= 5865,
                    forall |c2: int| 0 <= c2 < c
                        ==> #[trigger] mid@[crate::plane::gidx(width as int, c2, r as int)] as int
                                == mid_val(*srcp, sx as int, sy as int, xf, c2, r as int - 3)
                            && -1785 <= mid@[crate::plane::gidx(width as int, c2, r as int)] <= 5865,
                decreases width - c,
            {
                let s = filt8_h(srcp, sx + c - 3, sy + r - 3, &x_filter, Ghost(xf));
                proof {
                    let win = Seq::new(8, |k: int| srcp.sample((sx + c - 3) as int + k, (sy + r - 3) as int) as int);
                    assert forall |k: int| 0 <= k < 8 implies 0 <= #[trigger] win[k] <= 255 by {
                        assert(srcp.sample(sx + c - 3 + k, sy + r - 3) < 256);
                    }
                    lemma_conv8_bounds(xf, win, 0, 255);
                    assert(s as int == conv8(xf, win));
                    assert(-14280 <= s <= 46920);
                    assert(conv8(xf, win) == conv8(xf, hwin(*srcp, sx as int, sy as int, c as int, r as int - 3)));
                }
                let m = round_shift(s, 3);
                proof {
                    vstd::arithmetic::power2::lemma2_to64();
                    lemma_rshift_range(s as int, 3, -14280, 46920);
                    assert(-1785 <= m <= 5865);
                }
                let ghost mid_pre = mid@;
                mid.push(m as i16);
                proof {
                    assert(m as i16 as int == m as int);
                    assert(mid@[mid_pre.len() as int] == m as i16);
                    assert forall |c2: int, r2: int| 0 <= c2 < width && 0 <= r2 < r
                        implies #[trigger] mid@[crate::plane::gidx(width as int, c2, r2)] as int
                                == mid_val(*srcp, sx as int, sy as int, xf, c2, r2 - 3)
                            && -1785 <= mid@[crate::plane::gidx(width as int, c2, r2)] <= 5865 by {
                        crate::plane::lemma_gidx_bounds(width as int, r as int, c2, r2);
                        assert(crate::plane::gidx(width as int, c2, r2) < width * r);
                        assert(width * r == r * width) by (nonlinear_arith);
                        assert(mid@[crate::plane::gidx(width as int, c2, r2)]
                            == mid_pre[crate::plane::gidx(width as int, c2, r2)]);
                    }
                    assert forall |c2: int| 0 <= c2 < c + 1
                        implies #[trigger] mid@[crate::plane::gidx(width as int, c2, r as int)] as int
                                == mid_val(*srcp, sx as int, sy as int, xf, c2, r as int - 3)
                            && -1785 <= mid@[crate::plane::gidx(width as int, c2, r as int)] <= 5865 by {
                        if c2 < c {
                            assert(crate::plane::gidx(width as int, c2, r as int) < r * width + c);
                            assert(crate::plane::gidx(width as int, c2, r as int) >= 0) by (nonlinear_arith)
                                requires c2 >= 0 && r >= 0 && width > 0;
                            assert(mid@[crate::plane::gidx(width as int, c2, r as int)]
                                == mid_pre[crate::plane::gidx(width as int, c2, r as int)]);
                        } else {
                            assert(crate::plane::gidx(width as int, c2, r as int) == r * width + c);
                            assert(mid@[crate::plane::gidx(width as int, c2, r as int)] == m as i16);
                        }
                    }
                }
                c = c + 1;
            }
            proof {
                assert(mid@.len() == (r + 1) * width) by (nonlinear_arith)
                    requires mid@.len() == r * width + width;
            }
            r = r + 1;
        }
        proof {
            assert((height + 7) * width == height * width + 7 * width) by (nonlinear_arith);
        }
    }

    let mut j: usize = 0;
    while j < height
        invariant
            mc_src_ok(*srcp, sx as int, sy as int, width as int, height as int),
            1 <= width <= 128,
            1 <= height <= 128,
            j <= height,
            0 <= col_frac < 16 && 0 <= row_frac < 16,
            width * height <= tmp@.len(),
            tmp@.len() == old(tmp)@.len(),
            tmp@.len() == tmp_len,
            xf == spec_filter(mode_x, col_frac as int, width as int),
            yf == spec_filter(mode_y, row_frac as int, height as int),
            forall |k: int| 0 <= k < 8 ==> #[trigger] x_filter@[k] as int == xf[k],
            forall |k: int| 0 <= k < 8 ==> -128 <= #[trigger] x_filter@[k] <= 128,
            forall |k: int| 0 <= k < 8 ==> #[trigger] y_filter@[k] as int == yf[k],
            forall |k: int| 0 <= k < 8 ==> -128 <= #[trigger] y_filter@[k] <= 128,
            pos8(xf) <= 184 && neg8(xf) >= -56,
            pos8(yf) <= 184 && neg8(yf) >= -56,
            col_frac != 0 && row_frac != 0 ==> mid@.len() == (height + 7) * width
                && forall |c2: int, r2: int| 0 <= c2 < width && 0 <= r2 < height + 7
                    ==> #[trigger] mid@[crate::plane::gidx(width as int, c2, r2)] as int
                            == mid_val(*srcp, sx as int, sy as int, xf, c2, r2 - 3)
                        && -1785 <= mid@[crate::plane::gidx(width as int, c2, r2)] <= 5865,
            forall |i2: int, j2: int| 0 <= i2 < width && 0 <= j2 < j
                ==> #[trigger] tmp@[crate::plane::gidx(width as int, i2, j2)] as int
                    == prep_8tap_val(*srcp, sx as int, sy as int, i2, j2,
                        col_frac as int, row_frac as int, mode_x, mode_y,
                        width as int, height as int),
            forall |n: int| width * height <= n < tmp@.len()
                ==> #[trigger] tmp@[n] == old(tmp)@[n],
        decreases height - j,
    {
        let mut i: usize = 0;
        while i < width
            invariant
                mc_src_ok(*srcp, sx as int, sy as int, width as int, height as int),
                1 <= width <= 128,
                1 <= height <= 128,
                j < height,
                i <= width,
                0 <= col_frac < 16 && 0 <= row_frac < 16,
                width * height <= tmp@.len(),
                tmp@.len() == old(tmp)@.len(),
                tmp@.len() == tmp_len,
                xf == spec_filter(mode_x, col_frac as int, width as int),
                yf == spec_filter(mode_y, row_frac as int, height as int),
                forall |k: int| 0 <= k < 8 ==> #[trigger] x_filter@[k] as int == xf[k],
                forall |k: int| 0 <= k < 8 ==> -128 <= #[trigger] x_filter@[k] <= 128,
                forall |k: int| 0 <= k < 8 ==> #[trigger] y_filter@[k] as int == yf[k],
                forall |k: int| 0 <= k < 8 ==> -128 <= #[trigger] y_filter@[k] <= 128,
                pos8(xf) <= 184 && neg8(xf) >= -56,
                pos8(yf) <= 184 && neg8(yf) >= -56,
                col_frac != 0 && row_frac != 0 ==> mid@.len() == (height + 7) * width
                    && forall |c2: int, r2: int| 0 <= c2 < width && 0 <= r2 < height + 7
                        ==> #[trigger] mid@[crate::plane::gidx(width as int, c2, r2)] as int
                                == mid_val(*srcp, sx as int, sy as int, xf, c2, r2 - 3)
                            && -1785 <= mid@[crate::plane::gidx(width as int, c2, r2)] <= 5865,
                forall |i2: int, j2: int| 0 <= i2 < width && 0 <= j2 < j
                    ==> #[trigger] tmp@[crate::plane::gidx(width as int, i2, j2)] as int
                        == prep_8tap_val(*srcp, sx as int, sy as int, i2, j2,
                            col_frac as int, row_frac as int, mode_x, mode_y,
                            width as int, height as int),
                forall |i2: int| 0 <= i2 < i
                    ==> #[trigger] tmp@[crate::plane::gidx(width as int, i2, j as int)] as int
                        == prep_8tap_val(*srcp, sx as int, sy as int, i2, j as int,
                            col_frac as int, row_frac as int, mode_x, mode_y,
                            width as int, height as int),
                forall |n: int| width * height <= n < tmp@.len()
                    ==> #[trigger] tmp@[n] == old(tmp)@[n],
            decreases width - i,
        {
            let m: i32;
            if col_frac == 0 && row_frac == 0 {
                let v = srcp.get(sx + i, sy + j);
                m = (v as i32) * 16;
                proof {
                    assert(v < 256);
                }
            } else if col_frac == 0 {
                m = stage_v(srcp, sx, sy, i, j, width, height, &y_filter, Ghost(yf));
            } else if row_frac == 0 {
                m = stage_h(srcp, sx, sy, i, j + 3, width, height, &x_filter, Ghost(xf));
            } else {
                m = stage_mid(&mid, srcp, sx, sy, i, j, width, height, &y_filter, Ghost(yf), Ghost(xf));
            }
            let idx: usize = {
                proof {
                    crate::plane::lemma_gidx_bounds(width as int, height as int, i as int, j as int);
                    assert(width * height == height * width) by (nonlinear_arith);
                }
                j * width + i
            };
            let ghost tmp_pre = tmp@;
            vset16(tmp, idx, m as i16);
            proof {
                assert(m as i16 as int == m as int);
                assert(tmp@[idx as int] as int == m as int);
                assert(tmp@[crate::plane::gidx(width as int, i as int, j as int)] as int
                    == prep_8tap_val(*srcp, sx as int, sy as int, i as int, j as int,
                        col_frac as int, row_frac as int, mode_x, mode_y,
                        width as int, height as int));
                assert forall |n: int| 0 <= n < tmp@.len() && n != idx as int
                    implies tmp@[n] == tmp_pre[n] by {}
                assert forall |i2: int, j2: int| 0 <= i2 < width && 0 <= j2 < j
                    implies #[trigger] tmp@[crate::plane::gidx(width as int, i2, j2)] as int
                        == prep_8tap_val(*srcp, sx as int, sy as int, i2, j2,
                            col_frac as int, row_frac as int, mode_x, mode_y,
                            width as int, height as int) by {
                    crate::plane::lemma_gidx_bounds(width as int, height as int, i2, j2);
                    if crate::plane::gidx(width as int, i2, j2) == idx as int {
                        crate::plane::lemma_gidx_injective(width as int, i2, j2, i as int, j as int);
                    }
                }
                assert forall |i2: int| 0 <= i2 < i + 1
                    implies #[trigger] tmp@[crate::plane::gidx(width as int, i2, j as int)] as int
                        == prep_8tap_val(*srcp, sx as int, sy as int, i2, j as int,
                            col_frac as int, row_frac as int, mode_x, mode_y,
                            width as int, height as int) by {
                    crate::plane::lemma_gidx_bounds(width as int, height as int, i2, j as int);
                    if crate::plane::gidx(width as int, i2, j as int) == idx as int {
                        crate::plane::lemma_gidx_injective(width as int, i2, j as int, i as int, j as int);
                    } else {
                        assert(i2 < i);
                    }
                }
            }
            i = i + 1;
        }
        j = j + 1;
    }
}

/// Average two high-precision `prep_8tap` outputs with the fixed rounding
/// bias and clamp to the 8-bit sample range, writing into `dst` at
/// (`dx`, `dy`).
pub fn mc_avg(
    dst: &mut Plane,
    dx: usize,
    dy: usize,
    tmp1: &Vec<i16>,
    tmp2: &Vec<i16>,
    width: usize,
    height: usize,
    bit_depth: usize,
)
    requires
        old(dst).wf(),
        dx + width <= old(dst).cfg.stride,
        dy + height <= old(dst).cfg.alloc_height,
        1 <= width <= 128,
        1 <= height <= 128,
        width * height <= tmp1@.len(),
        width * height <= tmp2@.len(),
        bit_depth == 8,
    ensures
        final(dst).wf(),
        final(dst).cfg == old(dst).cfg,
        final(dst).data@.len() == old(dst).data@.len(),
        forall |i: int, j: int| 0 <= i < width && 0 <= j < height
            ==> #[trigger] final(dst).sample(dx + i, dy + j) as int == sclamp(
                rshift(
                    tmp1@[crate::plane::gidx(width as int, i, j)]
                        + tmp2@[crate::plane::gidx(width as int, i, j)], 5),
                0, 255),
        forall |x: int, y: int|
            0 <= x < old(dst).cfg.stride && 0 <= y < old(dst).cfg.alloc_height
                && !(dx <= x < dx + width && dy <= y < dy + height)
                ==> #[trigger] final(dst).sample(x, y) == old(dst).sample(x, y),
{
    let tlen1: usize = tmp1.len();
    let tlen2: usize = tmp2.len();
    let mut j: usize = 0;
    while j < height
        invariant
            dst.wf(),
            dst.cfg == old(dst).cfg,
            dst.data@.len() == old(dst).data@.len(),
            1 <= width <= 128,
            1 <= height <= 128,
            dx + width <= dst.cfg.stride,
            dy + height <= dst.cfg.alloc_height,
            width * height <= tmp1@.len(),
            width * height <= tmp2@.len(),
            tmp1@.len() == tlen1,
            tmp2@.len() == tlen2,
            j <= height,
            forall |i2: int, j2: int| 0 <= i2 < width && 0 <= j2 < j
                ==> #[trigger] dst.sample(dx + i2, dy + j2) as int == sclamp(
                    rshift(
                        tmp1@[crate::plane::gidx(width as int, i2, j2)]
                            + tmp2@[crate::plane::gidx(width as int, i2, j2)], 5),
                    0, 255),
            forall |x: int, y: int|
                0 <= x < dst.cfg.stride && 0 <= y < dst.cfg.alloc_height
                    && !(dx <= x < dx + width && dy <= y < dy + j)
                    ==> #[trigger] dst.sample(x, y) == old(dst).sample(x, y),
        decreases height - j,
    {
        let mut i: usize = 0;
        while i < width
            invariant
                dst.wf(),
                dst.cfg == old(dst).cfg,
                dst.data@.len() == old(dst).data@.len(),
                1 <= width <= 128,
                1 <= height <= 128,
                dx + width <= dst.cfg.stride,
                dy + height <= dst.cfg.alloc_height,
                width * height <= tmp1@.len(),
                width * height <= tmp2@.len(),
                tmp1@.len() == tlen1,
                tmp2@.len() == tlen2,
                j < height,
                i <= width,
                forall |i2: int, j2: int| 0 <= i2 < width && 0 <= j2 < j
                    ==> #[trigger] dst.sample(dx + i2, dy + j2) as int == sclamp(
                        rshift(
                            tmp1@[crate::plane::gidx(width as int, i2, j2)]
                                + tmp2@[crate::plane::gidx(width as int, i2, j2)], 5),
                        0, 255),
                forall |i2: int| 0 <= i2 < i
                    ==> #[trigger] dst.sample(dx + i2, dy + j as int) as int == sclamp(
                        rshift(
                            tmp1@[crate::plane::gidx(width as int, i2, j as int)]
                                + tmp2@[crate::plane::gidx(width as int, i2, j as int)], 5),
                        0, 255),
                forall |x: int, y: int|
                    0 <= x < dst.cfg.stride && 0 <= y < dst.cfg.alloc_height
                        && !(dx <= x < dx + width && dy <= y < dy + j)
                        && !(dx <= x < dx + i && y == dy + j)
                        ==> #[trigger] dst.sample(x, y) == old(dst).sample(x, y),
            decreases width - i,
        {
            let idx: usize = {
                proof {
                    crate::plane::lemma_gidx_bounds(width as int, height as int, i as int, j as int);
                    assert(width * height == height * width) by (nonlinear_arith);
                }
                j * width + i
            };
            let t1: i32 = tmp1[idx] as i32;
            let t2: i32 = tmp2[idx] as i32;
            let v = clamp(round_shift(t1 + t2, 5), 0, 255);
            dst.put(dx + i, dy + j, v as u16);
            i = i + 1;
        }
        j = j + 1;
    }
}

} // verus!
