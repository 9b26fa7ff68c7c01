//! Block distortion metrics: sum of absolute differences, Hadamard-domain
//! sum of absolute transformed differences, and importance-weighted squared
//! error, each over a pair of equally sized plane regions.

use vstd::prelude::*;
use crate::plane::PlaneRegion;
use crate::util::{rshift, lemma_rshift_range};

verus! {

/// Absolute value.
pub open spec fn iabs(a: int) -> int {
    if a < 0 { -a } else { a }
}

/// Sum of absolute sample differences over the first `w` columns of row `j`.
pub open spec fn sad_row(a: PlaneRegion, b: PlaneRegion, j: int, w: nat) -> int
    decreases w,
{
    if w == 0 {
        0
    } else {
        sad_row(a, b, j, (w - 1) as nat) + iabs(a.s(w - 1, j) - b.s(w - 1, j))
    }
}

/// Sum of absolute sample differences over the first `h` rows of a `w`-wide
/// block.
pub open spec fn spec_sad(a: PlaneRegion, b: PlaneRegion, w: nat, h: nat) -> int
    decreases h,
{
    if h == 0 {
        0
    } else {
        spec_sad(a, b, w, (h - 1) as nat) + sad_row(a, b, (h - 1) as int, w)
    }
}

/// A block compared against itself has zero absolute-difference sum.
pub proof fn lemma_sad_self_zero(a: PlaneRegion, w: nat, h: nat)
    ensures
        spec_sad(a, a, w, h) == 0,
    decreases h,
{
    assert forall |j: int, ww: nat| sad_row(a, a, j, ww) == 0 by {
        lemma_sad_row_self_zero(a, j, ww);
    }
    if h > 0 {
        lemma_sad_self_zero(a, w, (h - 1) as nat);
    }
}

proof fn lemma_sad_row_self_zero(a: PlaneRegion, j: int, w: nat)
    ensures
        sad_row(a, a, j, w) == 0,
    decreases w,
{
    if w > 0 {
        lemma_sad_row_self_zero(a, j, (w - 1) as nat);
    }
}

/// Sum of absolute sample differences over a `w` × `h` block of two plane
/// regions. Every block size uses this same accumulation, so specialised and
/// generic paths agree bit for bit.
pub fn get_sad(src: &PlaneRegion<'_>, dst: &PlaneRegion<'_>, w: usize, h: usize, bit_depth: usize) -> (r: u32)
    requires
        src.wf(),
        dst.wf(),
        1 <= w <= 128,
        1 <= h <= 128,
        w <= src.rect.width && h <= src.rect.height,
        w <= dst.rect.width && h <= dst.rect.height,
    ensures
        r as int == spec_sad(*src, *dst, w as nat, h as nat),
{
    let mut acc: u32 = 0;
    let mut j: usize = 0;
    while j < h
        invariant
            src.wf(),
            dst.wf(),
            1 <= w <= 128,
            1 <= h <= 128,
            w <= src.rect.width && h <= src.rect.height,
            w <= dst.rect.width && h <= dst.rect.height,
            j <= h,
            acc as int == spec_sad(*src, *dst, w as nat, j as nat),
            acc <= 0x10000 * (j * w),
        decreases h - j,
    {
        let mut i: usize = 0;
        let mut row: u32 = 0;
        while i < w
            invariant
                src.wf(),
                dst.wf(),
                1 <= w <= 128,
                1 <= h <= 128,
                w <= src.rect.width && h <= src.rect.height,
                w <= dst.rect.width && h <= dst.rect.height,
                j < h,
                i <= w,
                row as int == sad_row(*src, *dst, j as int, i as nat),
                row <= 0x10000 * i,
            decreases w - i,
        {
            let s = src.get(i, j);
            let d = dst.get(i, j);
            let diff: u32 = if s >= d { (s - d) as u32 } else { (d - s) as u32 };
            row = row + diff;
            i = i + 1;
        }
        proof {
            assert(0x10000 * ((j + 1) * w) == 0x10000 * (j * w) + 0x10000 * w) by (nonlinear_arith);
            assert(0x10000 * (j * w) + 0x10000 * w <= 0x10000 * (128 * 128)) by (nonlinear_arith)
                requires j < h && h <= 128 && w <= 128;
            assert(0x10000 * i <= 0x10000 * w) by (nonlinear_arith)
                requires i <= w;
        }
        acc = acc + row;
        j = j + 1;
    }
    acc
}

/// The 8-point Hadamard butterfly over one column, in the fixed stage order
/// of the separable transform.
pub open spec fn had8(c: Seq<int>) -> Seq<int> {
    let a0 = c[0] + c[1];
    let a1 = c[0] - c[1];
    let a2 = c[2] + c[3];
    let a3 = c[2] - c[3];
    let a4 = c[4] + c[5];
    let a5 = c[4] - c[5];
    let a6 = c[6] + c[7];
    let a7 = c[6] - c[7];
    let b0 = a0 + a2;
    let b1 = a1 + a3;
    let b2 = a0 - a2;
    let b3 = a1 - a3;
    let b4 = a4 + a6;
    let b5 = a5 + a7;
    let b6 = a4 - a6;
    let b7 = a5 - a7;
    seq![b0 + b4, b1 + b5, b2 + b6, b3 + b7, b0 - b4, b1 - b5, b2 - b6, b3 - b7]
}

/// The 4-point Hadamard butterfly over one column.
pub open spec fn had4(c: Seq<int>) -> Seq<int> {
    let p0 = c[0] + c[2];
    let p1 = c[1] + c[3];
    let p2 = c[0] - c[2];
    let p3 = c[1] - c[3];
    seq![p0 + p1, p0 - p1, p2 + p3, p2 - p3]
}

/// Column `i` of a row-major `n` × `n` grid.
pub open spec fn grid_col(g: Seq<int>, n: nat, i: int) -> Seq<int> {
    Seq::new(n, |j: int| g[j * n + i])
}

/// The vertical Hadamard pass: every column of the `n` × `n` grid
/// transformed, `n` being 4 or 8.
pub open spec fn hpass(g: Seq<int>, n: nat) -> Seq<int> {
    Seq::new(
        n * n,
        |m: int| if n == 4 {
            had4(grid_col(g, n, m % (n as int)))[m / (n as int)]
        } else {
            had8(grid_col(g, n, m % (n as int)))[m / (n as int)]
        },
    )
}

/// Row `j` of a row-major `n` × `n` grid.
pub open spec fn grid_row(g: Seq<int>, n: nat, j: int) -> Seq<int> {
    Seq::new(n, |i: int| g[j * n + i])
}

/// Sum of absolute values of the first `k` entries.
pub open spec fn abs_sum(g: Seq<int>, k: nat) -> int
    decreases k,
{
    if k == 0 {
        0
    } else {
        abs_sum(g, (k - 1) as nat) + iabs(g[k - 1])
    }
}

/// The difference grid of one `n` × `n` tile at (`x0`, `y0`).
pub open spec fn diff_tile(a: PlaneRegion, b: PlaneRegion, x0: int, y0: int, n: nat) -> Seq<int> {
    Seq::new(n * n, |m: int| a.s(x0 + m % (n as int), y0 + m / (n as int))
        - b.s(x0 + m % (n as int), y0 + m / (n as int)))
}

/// Absolute coefficient sum of the second butterfly pass over the first
/// `i` rows of the column-transformed grid. Transforming the rows of the
/// first pass is the transpose-then-columns step of the separable transform.
pub open spec fn satd_second(m1: Seq<int>, n: nat, i: nat) -> int
    decreases i,
{
    if i == 0 {
        0
    } else if n == 4 {
        satd_second(m1, n, (i - 1) as nat) + abs_sum(had4(grid_row(m1, n, i - 1)), n)
    } else {
        satd_second(m1, n, (i - 1) as nat) + abs_sum(had8(grid_row(m1, n, i - 1)), n)
    }
}

/// The Hadamard-domain absolute sum of one tile: butterfly over columns,
/// then butterfly over the resulting rows (the transpose-and-repeat step of
/// the separable transform), then the absolute coefficient sum.
pub open spec fn satd_tile(a: PlaneRegion, b: PlaneRegion, x0: int, y0: int, n: nat) -> int {
    satd_second(hpass(diff_tile(a, b, x0, y0, n), n), n, n)
}

/// Sum of tile values over the first `tx` tiles of tile row `ty`.
pub open spec fn satd_tiles_row(a: PlaneRegion, b: PlaneRegion, n: nat, ty: int, tx: nat) -> int
    decreases tx,
{
    if tx == 0 {
        0
    } else {
        satd_tiles_row(a, b, n, ty, (tx - 1) as nat)
            + satd_tile(a, b, (tx - 1) * n, ty * n, n)
    }
}

/// Sum of tile values over the first `ty` tile rows, `txs` tiles each.
pub open spec fn satd_tiles(a: PlaneRegion, b: PlaneRegion, n: nat, txs: nat, ty: nat) -> int
    decreases ty,
{
    if ty == 0 {
        0
    } else {
        satd_tiles(a, b, n, txs, (ty - 1) as nat)
            + satd_tiles_row(a, b, n, (ty - 1) as int, txs)
    }
}

/// Which tile size a block uses: 8 × 8 when both sides allow it, else 4 × 4.
pub open spec fn satd_sub(w: nat, h: nat) -> nat {
    if w >= 8 && h >= 8 { 8nat } else { 4nat }
}

/// The sum of absolute Hadamard-transformed differences of a block: tile
/// sums accumulated, then one rounding shift by two.
pub open spec fn spec_satd(a: PlaneRegion, b: PlaneRegion, w: nat, h: nat) -> int {
    let n = satd_sub(w, h);
    rshift(satd_tiles(a, b, n, w / n, h / n), 2)
}


/// The 8-point butterfly over machine integers.
fn had8_exec(c: &Vec<i32>, Ghost(bound): Ghost<int>) -> (r: Vec<i32>)
    requires
        c@.len() == 8,
        0 <= bound <= 0x100000,
        forall |k: int| 0 <= k < 8 ==> -bound <= #[trigger] c@[k] <= bound,
    ensures
        r@.len() == 8,
        forall |k: int| 0 <= k < 8 ==> #[trigger] r@[k] as int == had8(crate::transform::iseq(c@))[k],
        forall |k: int| 0 <= k < 8 ==> -8 * bound <= #[trigger] r@[k] <= 8 * bound,
{
    let a0 = c[0] + c[1];
    let a1 = c[0] - c[1];
    let a2 = c[2] + c[3];
    let a3 = c[2] - c[3];
    let a4 = c[4] + c[5];
    let a5 = c[4] - c[5];
    let a6 = c[6] + c[7];
    let a7 = c[6] - c[7];
    let b0 = a0 + a2;
    let b1 = a1 + a3;
    let b2 = a0 - a2;
    let b3 = a1 - a3;
    let b4 = a4 + a6;
    let b5 = a5 + a7;
    let b6 = a4 - a6;
    let b7 = a5 - a7;
    let mut r: Vec<i32> = Vec::new();
    r.push(b0 + b4);
    r.push(b1 + b5);
    r.push(b2 + b6);
    r.push(b3 + b7);
    r.push(b0 - b4);
    r.push(b1 - b5);
    r.push(b2 - b6);
    r.push(b3 - b7);
    r
}

/// The 4-point butterfly over machine integers.
fn had4_exec(c: &Vec<i32>, Ghost(bound): Ghost<int>) -> (r: Vec<i32>)
    requires
        c@.len() == 4,
        0 <= bound <= 0x1000000,
        forall |k: int| 0 <= k < 4 ==> -bound <= #[trigger] c@[k] <= bound,
    ensures
        r@.len() == 4,
        forall |k: int| 0 <= k < 4 ==> #[trigger] r@[k] as int == had4(crate::transform::iseq(c@))[k],
        forall |k: int| 0 <= k < 4 ==> -4 * bound <= #[trigger] r@[k] <= 4 * bound,
{
    let p0 = c[0] + c[2];
    let p1 = c[1] + c[3];
    let p2 = c[0] - c[2];
    let p3 = c[1] - c[3];
    let mut r: Vec<i32> = Vec::new();
    r.push(p0 + p1);
    r.push(p0 - p1);
    r.push(p2 + p3);
    r.push(p2 - p3);
    r
}

/// Every sample of the first `w` × `h` cells of a region is below `m`.
pub open spec fn region_max(a: PlaneRegion, w: nat, h: nat, m: int) -> bool {
    forall |i: int, j: int| 0 <= i < w && 0 <= j < h ==> (#[trigger] a.s(i, j)) < m
}

/// Hadamard-domain absolute sum of the `n` × `n` tile at (`x0`, `y0`),
/// with `n` either 4 or 8.
#[verifier::rlimit(100)]
fn satd_tile_exec(a: &PlaneRegion<'_>, b: &PlaneRegion<'_>, x0: usize, y0: usize, n: usize) -> (r: u32)
    requires
        a.wf(),
        b.wf(),
        n == 4 || n == 8,
        x0 + n <= a.rect.width && y0 + n <= a.rect.height,
        x0 + n <= b.rect.width && y0 + n <= b.rect.height,
        region_max(*a, a.rect.width as nat, a.rect.height as nat, 4096),
        region_max(*b, b.rect.width as nat, b.rect.height as nat, 4096),
    ensures
        r as int == satd_tile(*a, *b, x0 as int, y0 as int, n as nat),
        r <= 16773120,
        n == 4 ==> r <= 4193280,
{
    let ghost dseq = diff_tile(*a, *b, x0 as int, y0 as int, n as nat);
    let ghost m1seq = hpass(dseq, n as nat);

    // Difference grid, row-major.
    let mut d: Vec<i32> = Vec::new();
    let mut j: usize = 0;
    while j < n
        invariant
            a.wf(),
            b.wf(),
            n == 4 || n == 8,
            x0 + n <= a.rect.width && y0 + n <= a.rect.height,
            x0 + n <= b.rect.width && y0 + n <= b.rect.height,
            region_max(*a, a.rect.width as nat, a.rect.height as nat, 4096),
            region_max(*b, b.rect.width as nat, b.rect.height as nat, 4096),
            j <= n,
            dseq == diff_tile(*a, *b, x0 as int, y0 as int, n as nat),
            d@.len() == j * n,
            forall |i2: int, j2: int| 0 <= i2 < n && 0 <= j2 < j
                ==> #[trigger] d@[j2 * n + i2] as int
                        == a.s(x0 + i2, y0 + j2) - b.s(x0 + i2, y0 + j2)
                    && -4095 <= d@[j2 * n + i2] <= 4095,
        decreases n - j,
    {
        let mut i: usize = 0;
        while i < n
            invariant
                a.wf(),
                b.wf(),
                n == 4 || n == 8,
                x0 + n <= a.rect.width && y0 + n <= a.rect.height,
                x0 + n <= b.rect.width && y0 + n <= b.rect.height,
                region_max(*a, a.rect.width as nat, a.rect.height as nat, 4096),
                region_max(*b, b.rect.width as nat, b.rect.height as nat, 4096),
                j < n,
                i <= n,
                d@.len() == j * n + i,
                forall |i2: int, j2: int| 0 <= i2 < n && 0 <= j2 < j
                    ==> #[trigger] d@[j2 * n + i2] as int
                            == a.s(x0 + i2, y0 + j2) - b.s(x0 + i2, y0 + j2)
                        && -4095 <= d@[j2 * n + i2] <= 4095,
                forall |i2: int| 0 <= i2 < i
                    ==> #[trigger] d@[j * n + i2] as int
                            == a.s(x0 + i2, y0 + j as int) - b.s(x0 + i2, y0 + j as int)
                        && -4095 <= d@[j * n + i2] <= 4095,
            decreases n - i,
        {
            let sv = a.get(x0 + i, y0 + j) as i32;
            let dv = b.get(x0 + i, y0 + j) as i32;
            proof {
                assert(a.s(x0 + i, y0 + j as int) < 4096);
                assert(b.s(x0 + i, y0 + j as int) < 4096);
            }
            let ghost dpre = d@;
            d.push(sv - dv);
            proof {
                assert forall |i2: int, j2: int| 0 <= i2 < n && 0 <= j2 < j
                    implies #[trigger] d@[j2 * n + i2] as int
                            == a.s(x0 + i2, y0 + j2) - b.s(x0 + i2, y0 + j2)
                        && -4095 <= d@[j2 * n + i2] <= 4095 by {
                    assert(0 <= j2 * n + i2 < j * n) by (nonlinear_arith)
                        requires 0 <= i2 < n && 0 <= j2 < j && n > 0;
                    assert(d@[j2 * n + i2] == dpre[j2 * n + i2]);
                }
                assert forall |i2: int| 0 <= i2 < i + 1
                    implies #[trigger] d@[j * n + i2] as int
                            == a.s(x0 + i2, y0 + j as int) - b.s(x0 + i2, y0 + j as int)
                        && -4095 <= d@[j * n + i2] <= 4095 by {
                    if i2 < i {
                        assert(d@[j * n + i2] == dpre[j * n + i2]);
                    } else {
                        assert(j * n + i2 == dpre.len());
                    }
                }
            }
            i = i + 1;
        }
        proof {
            assert((j + 1) as int * n == j * n + n) by (nonlinear_arith);
        }
        j = j + 1;
    }
    proof {
        assert(n * n == n as int * n) by (nonlinear_arith);
        assert forall |m: int| 0 <= m < n * n
            implies #[trigger] d@[m] as int == dseq[m] && -4095 <= d@[m] <= 4095 by {
            let jj = m / (n as int);
            let ii = m % (n as int);
            vstd::arithmetic::div_mod::lemma_fundamental_div_mod(m, n as int);
            vstd::arithmetic::div_mod::lemma_mod_bound(m, n as int);
            assert(0 <= jj < n) by (nonlinear_arith)
                requires m >= 0 && n > 0 && m == (n as int) * jj + ii && 0 <= ii < n && m < n * n;
            assert(jj * n + ii == m) by (nonlinear_arith)
                requires m == (n as int) * jj + ii;
            assert(d@[jj * n + ii] as int == a.s(x0 + ii, y0 + jj) - b.s(x0 + ii, y0 + jj));
        }
    }

    // First pass: transform every column, stored row-major.
    let mut m1: Vec<i32> = Vec::new();
    let nn: usize = n * n;
    let mut t: usize = 0;
    while t < nn
        invariant
            nn == n * n,
            m1@.len() == t,
            t <= nn,
            forall |k: int| 0 <= k < t ==> #[trigger] m1@[k] == 0i32,
        decreases nn - t,
    {
        m1.push(0i32);
        t = t + 1;
    }
    let mut i: usize = 0;
    while i < n
        invariant
            n == 4 || n == 8,
            i <= n,
            d@.len() == n * n,
            m1@.len() == n * n,
            m1seq == hpass(dseq, n as nat),
            forall |m: int| 0 <= m < n * n
                ==> #[trigger] d@[m] as int == dseq[m] && -4095 <= d@[m] <= 4095,
            forall |i2: int, j2: int| 0 <= i2 < i && 0 <= j2 < n
                ==> #[trigger] m1@[j2 * n + i2] as int == m1seq[j2 * n + i2]
                    && -32760 <= m1@[j2 * n + i2] <= 32760,
        decreases n - i,
    {
        let mut col: Vec<i32> = Vec::new();
        let mut j: usize = 0;
        while j < n
            invariant
                n == 4 || n == 8,
                i < n,
                j <= n,
                d@.len() == n * n,
                forall |m: int| 0 <= m < n * n
                    ==> #[trigger] d@[m] as int == dseq[m] && -4095 <= d@[m] <= 4095,
                col@.len() == j,
                forall |j2: int| 0 <= j2 < j ==> #[trigger] col@[j2] == d@[j2 * n + i as int],
            decreases n - j,
        {
            proof {
                assert(0 <= j * n + i < n * n) by (nonlinear_arith)
                    requires 0 <= i < n && 0 <= j < n;
            }
            col.push(d[j * n + i]);
            j = j + 1;
        }
        proof {
            assert forall |k: int| 0 <= k < n implies -4095 <= #[trigger] col@[k] <= 4095
                && col@[k] as int == grid_col(dseq, n as nat, i as int)[k] by {
                assert(col@[k] == d@[k * n + i as int]);
                assert(0 <= k * n + i < n * n) by (nonlinear_arith)
                    requires 0 <= i < n && 0 <= k < n;
            }
            assert(crate::transform::iseq(col@) =~= grid_col(dseq, n as nat, i as int));
        }
        let o = if n == 4 {
            had4_exec(&col, Ghost(4095))
        } else {
            had8_exec(&col, Ghost(4095))
        };
        let mut j: usize = 0;
        while j < n
            invariant
                n == 4 || n == 8,
                i < n,
                j <= n,
                m1@.len() == n * n,
                o@.len() == n,
                m1seq == hpass(dseq, n as nat),
                forall |k: int| 0 <= k < n
                    ==> #[trigger] o@[k] as int == m1seq[k * n + i as int]
                        && -32760 <= o@[k] <= 32760,
                forall |i2: int, j2: int| 0 <= i2 < i && 0 <= j2 < n
                    ==> #[trigger] m1@[j2 * n + i2] as int == m1seq[j2 * n + i2]
                        && -32760 <= m1@[j2 * n + i2] <= 32760,
                forall |j2: int| 0 <= j2 < j
                    ==> #[trigger] m1@[j2 * n + i as int] as int == m1seq[j2 * n + i as int]
                        && -32760 <= m1@[j2 * n + i as int] <= 32760,
            decreases n - j,
        {
            proof {
                assert(0 <= j * n + i < n * n) by (nonlinear_arith)
                    requires 0 <= i < n && 0 <= j < n;
            }
            let idx: usize = j * n + i;
            let ghost m1pre = m1@;
            let v = o[j];
            m1[idx] = v;
            proof {
                assert forall |i2: int, j2: int| 0 <= i2 < i && 0 <= j2 < n
                    implies #[trigger] m1@[j2 * n + i2] as int == m1seq[j2 * n + i2]
                        && -32760 <= m1@[j2 * n + i2] <= 32760 by {
                    assert(0 <= j2 * n + i2 < n * n) by (nonlinear_arith)
                        requires 0 <= i2 < n && 0 <= j2 < n && n > 0;
                    if j2 * n + i2 == idx as int {
                        crate::plane::lemma_gidx_injective(n as int, i2, j2, i as int, j as int);
                        assert(false);
                    }
                    assert(m1@[j2 * n + i2] == m1pre[j2 * n + i2]);
                }
                assert forall |j2: int| 0 <= j2 < j + 1
                    implies #[trigger] m1@[j2 * n + i as int] as int == m1seq[j2 * n + i as int]
                        && -32760 <= m1@[j2 * n + i as int] <= 32760 by {
                    assert(0 <= j2 * n + i < n * n) by (nonlinear_arith)
                        requires 0 <= i < n && 0 <= j2 < n && n > 0;
                    if j2 < j {
                        if j2 * n + i as int == idx as int {
                            crate::plane::lemma_gidx_injective(n as int, i as int, j2, i as int, j as int);
                            assert(false);
                        }
                        assert(m1@[j2 * n + i as int] == m1pre[j2 * n + i as int]);
                    } else {
                        assert(m1@[idx as int] == v);
                    }
                }
            }
            j = j + 1;
        }
        proof {
            // The just-written column matches the spec column transform.
            assert forall |j2: int| 0 <= j2 < n
                implies m1seq[j2 * n + i as int] == (if n == 4 {
                    had4(grid_col(dseq, n as nat, i as int))[j2]
                } else {
                    had8(grid_col(dseq, n as nat, i as int))[j2]
                }) by {
                assert(0 <= j2 * n + i < n * n) by (nonlinear_arith)
                    requires 0 <= i < n && 0 <= j2 < n;
                vstd::arithmetic::div_mod::lemma_fundamental_div_mod_converse(
                    j2 * n + i as int, n as int, j2, i as int);
            }
        }
        i = i + 1;
    }

    // Second pass: transform every row of the first pass, accumulating the
    // absolute coefficient sum.
    let mut acc: u32 = 0;
    let mut i: usize = 0;
    while i < n
        invariant
            n == 4 || n == 8,
            i <= n,
            m1@.len() == n * n,
            m1seq == hpass(dseq, n as nat),
            forall |i2: int, j2: int| 0 <= i2 < n && 0 <= j2 < n
                ==> #[trigger] m1@[j2 * n + i2] as int == m1seq[j2 * n + i2]
                    && -32760 <= m1@[j2 * n + i2] <= 32760,
            acc as int == satd_second(m1seq, n as nat, i as nat),
            acc as int <= i * (n * 262080),
        decreases n - i,
    {
        let mut row: Vec<i32> = Vec::new();
        let mut j: usize = 0;
        while j < n
            invariant
                n == 4 || n == 8,
                i < n,
                j <= n,
                m1@.len() == n * n,
                forall |i2: int, j2: int| 0 <= i2 < n && 0 <= j2 < n
                    ==> #[trigger] m1@[j2 * n + i2] as int == m1seq[j2 * n + i2]
                        && -32760 <= m1@[j2 * n + i2] <= 32760,
                row@.len() == j,
                forall |j2: int| 0 <= j2 < j ==> #[trigger] row@[j2] == m1@[i as int * n + j2],
            decreases n - j,
        {
            proof {
                assert(0 <= i * n + j < n * n) by (nonlinear_arith)
                    requires 0 <= i < n && 0 <= j < n;
            }
            row.push(m1[i * n + j]);
            j = j + 1;
        }
        proof {
            assert forall |k: int| 0 <= k < n implies -32760 <= #[trigger] row@[k] <= 32760
                && row@[k] as int == grid_row(m1seq, n as nat, i as int)[k] by {
                assert(row@[k] == m1@[i as int * n + k]);
                assert(m1@[k + i as int * n] == m1@[i as int * n + k]);
                assert(0 <= i as int * n + k < n * n) by (nonlinear_arith)
                    requires 0 <= i < n && 0 <= k < n;
                assert(m1@[i as int * n + k] as int == m1seq[i as int * n + k]);
            }
            assert(crate::transform::iseq(row@) =~= grid_row(m1seq, n as nat, i as int));
        }
        let o = if n == 4 {
            had4_exec(&row, Ghost(32760))
        } else {
            had8_exec(&row, Ghost(32760))
        };
        let mut inner: u32 = 0;
        let mut j: usize = 0;
        while j < n
            invariant
                n == 4 || n == 8,
                i < n,
                j <= n,
                o@.len() == n,
                forall |k: int| 0 <= k < n ==> -262080 <= #[trigger] o@[k] <= 262080,
                inner as int == abs_sum(crate::transform::iseq(o@), j as nat),
                inner as int <= j * 262080,
            decreases n - j,
        {
            let v = o[j];
            let av: u32 = if v < 0 { (-v) as u32 } else { v as u32 };
            inner = inner + av;
            j = j + 1;
        }
        proof {
            if n == 4 {
                assert(abs_sum(crate::transform::iseq(o@), n as nat)
                    == abs_sum(had4(grid_row(m1seq, n as nat, i as int)), n as nat)) by {
                    lemma_abs_sum_congruent(crate::transform::iseq(o@),
                        had4(grid_row(m1seq, n as nat, i as int)), n as nat);
                }
            } else {
                assert(abs_sum(crate::transform::iseq(o@), n as nat)
                    == abs_sum(had8(grid_row(m1seq, n as nat, i as int)), n as nat)) by {
                    lemma_abs_sum_congruent(crate::transform::iseq(o@),
                        had8(grid_row(m1seq, n as nat, i as int)), n as nat);
                }
            }
        }
        proof {
            assert((i + 1) as int * (n * 262080) == i * (n * 262080) + n * 262080) by (nonlinear_arith);
            assert(j * 262080 <= n * 262080) by (nonlinear_arith)
                requires j <= n;
            assert(i * (n * 262080) + n * 262080 <= 16773120) by (nonlinear_arith)
                requires 0 <= i < n && (n == 4 || n == 8);
        }
        acc = acc + inner;
        i = i + 1;
    }
    proof {
        assert(acc as int <= n as int * (n * 262080)) by (nonlinear_arith)
            requires acc as int <= i * (n * 262080) && i == n;
        assert(n as int * (n * 262080) <= 16773120) by (nonlinear_arith)
            requires n == 4 || n == 8;
        if n == 4 {
            assert(n as int * (n * 262080) == 4193280) by (nonlinear_arith)
                requires n == 4;
        }
    }
    acc
}

/// The absolute sum of a zero prefix is zero.
proof fn lemma_abs_sum_zero(g: Seq<int>, k: nat)
    requires
        forall |m: int| 0 <= m < k ==> #[trigger] g[m] == 0,
    ensures
        abs_sum(g, k) == 0,
    decreases k,
{
    if k > 0 {
        lemma_abs_sum_zero(g, (k - 1) as nat);
    }
}

/// Absolute sums agree on sequences that agree on the summed prefix.
proof fn lemma_abs_sum_congruent(x: Seq<int>, y: Seq<int>, k: nat)
    requires
        forall |m: int| 0 <= m < k ==> #[trigger] x[m] == y[m],
    ensures
        abs_sum(x, k) == abs_sum(y, k),
    decreases k,
{
    if k > 0 {
        lemma_abs_sum_congruent(x, y, (k - 1) as nat);
    }
}

/// Sum of absolute Hadamard-transformed differences over a `w` × `h` block
/// tiled into 8 × 8 (or, for narrow blocks, 4 × 4) units. Every block size
/// uses the same tile kernel, so specialised and generic paths agree bit for
/// bit.
#[verifier::rlimit(100)]
pub fn get_satd(src: &PlaneRegion<'_>, dst: &PlaneRegion<'_>, w: usize, h: usize, bit_depth: usize) -> (r: u32)
    requires
        src.wf(),
        dst.wf(),
        4 <= w <= 128,
        4 <= h <= 128,
        w % satd_sub(w as nat, h as nat) as usize == 0,
        h % satd_sub(w as nat, h as nat) as usize == 0,
        w <= src.rect.width && h <= src.rect.height,
        w <= dst.rect.width && h <= dst.rect.height,
        region_max(*src, src.rect.width as nat, src.rect.height as nat, 4096),
        region_max(*dst, dst.rect.width as nat, dst.rect.height as nat, 4096),
    ensures
        r as int == spec_satd(*src, *dst, w as nat, h as nat),
{
    let n: usize = if w >= 8 && h >= 8 { 8 } else { 4 };
    let txs: usize = w / n;
    let tys: usize = h / n;
    proof {
        vstd::arithmetic::div_mod::lemma_div_is_ordered(w as int, 128, n as int);
        vstd::arithmetic::div_mod::lemma_div_is_ordered(h as int, 128, n as int);
        assert(txs <= 32 && tys <= 32);
        assert(n == 8 ==> txs <= 16 && tys <= 16);
        assert(txs * n <= w && tys * n <= h) by (nonlinear_arith)
            requires txs == w / n && tys == h / n && n > 0;
    }
    let ghost tbound: int = if n == 4 { 4193280int } else { 16773120int };
    let ghost tcount: int = if n == 4 { 1024int } else { 256int };
    let mut acc: u64 = 0;
    let mut ty: usize = 0;
    while ty < tys
        invariant
            src.wf(),
            dst.wf(),
            4 <= w <= 128,
            4 <= h <= 128,
            n == satd_sub(w as nat, h as nat),
            (n == 4 || n == 8),
            txs == w / n && tys == h / n,
            txs <= 32 && tys <= 32,
            n == 8 ==> txs <= 16 && tys <= 16,
            tbound == (if n == 4 { 4193280int } else { 16773120int }),
            tcount == (if n == 4 { 1024int } else { 256int }),
            txs * n <= w && tys * n <= h,
            w <= src.rect.width && h <= src.rect.height,
            w <= dst.rect.width && h <= dst.rect.height,
            region_max(*src, src.rect.width as nat, src.rect.height as nat, 4096),
            region_max(*dst, dst.rect.width as nat, dst.rect.height as nat, 4096),
            ty <= tys,
            acc as int == satd_tiles(*src, *dst, n as nat, txs as nat, ty as nat),
            acc as int <= (ty * txs) * tbound,
        decreases tys - ty,
    {
        let mut tx: usize = 0;
        let mut rowacc: u64 = 0;
        while tx < txs
            invariant
                src.wf(),
                dst.wf(),
                4 <= w <= 128,
                4 <= h <= 128,
                (n == 4 || n == 8),
                txs <= 32 && tys <= 32,
                n == 8 ==> txs <= 16 && tys <= 16,
                tbound == (if n == 4 { 4193280int } else { 16773120int }),
                txs * n <= w && tys * n <= h,
                w <= src.rect.width && h <= src.rect.height,
                w <= dst.rect.width && h <= dst.rect.height,
                region_max(*src, src.rect.width as nat, src.rect.height as nat, 4096),
                region_max(*dst, dst.rect.width as nat, dst.rect.height as nat, 4096),
                ty < tys,
                tx <= txs,
                rowacc as int == satd_tiles_row(*src, *dst, n as nat, ty as int, tx as nat),
                rowacc as int <= tx * tbound,
            decreases txs - tx,
        {
            proof {
                assert(tx * n + n <= txs * n) by (nonlinear_arith)
                    requires tx + 1 <= txs && n > 0;
                assert(ty * n + n <= tys * n) by (nonlinear_arith)
                    requires ty + 1 <= tys && n > 0;
            }
            let t = satd_tile_exec(src, dst, tx * n, ty * n, n);
            rowacc = rowacc + t as u64;
            tx = tx + 1;
        }
        proof {
            assert(((ty + 1) * txs) as int * tbound == (ty * txs) * tbound + txs * tbound)
                by (nonlinear_arith);
            assert(tx * tbound <= txs * tbound) by (nonlinear_arith)
                requires tx <= txs && tbound >= 0;
            assert((ty + 1) * txs <= tcount) by (nonlinear_arith)
                requires ty < tys
                    && (tcount == 1024 && tys <= 32 && txs <= 32
                        || tcount == 256 && tys <= 16 && txs <= 16);
            assert(((ty + 1) * txs) as int * tbound <= tcount * tbound) by (nonlinear_arith)
                requires (ty + 1) * txs <= tcount && tbound >= 0;
            assert(tcount * tbound <= 4293918720) by (nonlinear_arith)
                requires tcount == 1024 && tbound == 4193280 || tcount == 256 && tbound == 16773120;
        }
        acc = acc + rowacc;
        ty = ty + 1;
    }
    proof {
        assert((tys * txs) * tbound <= tcount * tbound) by (nonlinear_arith)
            requires tbound >= 0
                && (tcount == 1024 && tys <= 32 && txs <= 32
                    || tcount == 256 && tys <= 16 && txs <= 16);
        assert(tcount * tbound <= 4293918720) by (nonlinear_arith)
            requires tcount == 1024 && tbound == 4193280 || tcount == 256 && tbound == 16773120;
    }
    let r64 = crate::util::round_shift64(acc as i64, 2);
    proof {
        vstd::arithmetic::power2::lemma2_to64();
        lemma_rshift_range(acc as int, 2, 0, 4293918720);
    }
    r64 as u32
}

/// A block compared against itself has zero Hadamard-domain distortion.
pub proof fn lemma_satd_self_zero(a: PlaneRegion, w: nat, h: nat)
    ensures
        spec_satd(a, a, w, h) == 0,
{
    let n = satd_sub(w, h);
    lemma_satd_tiles_self_zero(a, n, w / n, h / n);
    vstd::arithmetic::power2::lemma2_to64();
}

proof fn lemma_satd_tiles_self_zero(a: PlaneRegion, n: nat, txs: nat, ty: nat)
    requires
        n == 4 || n == 8,
    ensures
        satd_tiles(a, a, n, txs, ty) == 0,
    decreases ty,
{
    if ty > 0 {
        lemma_satd_tiles_self_zero(a, n, txs, (ty - 1) as nat);
        lemma_satd_tiles_row_self_zero(a, n, (ty - 1) as int, txs);
    }
}

proof fn lemma_satd_tiles_row_self_zero(a: PlaneRegion, n: nat, ty: int, tx: nat)
    requires
        n == 4 || n == 8,
    ensures
        satd_tiles_row(a, a, n, ty, tx) == 0,
    decreases tx,
{
    if tx > 0 {
        lemma_satd_tiles_row_self_zero(a, n, ty, (tx - 1) as nat);
        lemma_satd_tile_self_zero(a, n, ((tx - 1) * n) as int, ty * n);
    }
}

proof fn lemma_satd_tile_self_zero(a: PlaneRegion, n: nat, x0: int, y0: int)
    requires
        n == 4 || n == 8,
    ensures
        satd_tile(a, a, x0, y0, n) == 0,
{
    let dz = diff_tile(a, a, x0, y0, n);
    assert(forall |m: int| 0 <= m < n * n ==> #[trigger] dz[m] == 0);
    let m1 = hpass(dz, n);
    assert forall |m: int| 0 <= m < n * n implies #[trigger] m1[m] == 0 by {
        vstd::arithmetic::div_mod::lemma_fundamental_div_mod(m, n as int);
        vstd::arithmetic::div_mod::lemma_mod_bound(m, n as int);
        assert(0 <= m / (n as int) < n) by (nonlinear_arith)
            requires m >= 0 && n > 0 && m < n * n
                && m == (n as int) * (m / (n as int)) + m % (n as int) && 0 <= m % (n as int) < n;
        let cc = grid_col(dz, n, m % (n as int));
        assert forall |jj: int| 0 <= jj < n implies #[trigger] cc[jj] == 0 by {
            assert(0 <= jj * n + m % (n as int) < n * n) by (nonlinear_arith)
                requires 0 <= jj < n && 0 <= m % (n as int) < n;
            assert(dz[jj * n + m % (n as int)] == 0);
        }
        if n == 4 {
            assert(had4(cc)[m / (n as int)] == 0);
        } else {
            assert(had8(cc)[m / (n as int)] == 0);
        }
    }
    lemma_satd_second_zero(m1, n, n);
}

proof fn lemma_satd_second_zero(m1: Seq<int>, n: nat, i: nat)
    requires
        n == 4 || n == 8,
        i <= n,
        forall |m: int| 0 <= m < n * n ==> #[trigger] m1[m] == 0,
    ensures
        satd_second(m1, n, i) == 0,
    decreases i,
{
    if i > 0 {
        lemma_satd_second_zero(m1, n, (i - 1) as nat);
        let row = grid_row(m1, n, i - 1);
        assert forall |k: int| 0 <= k < n implies #[trigger] row[k] == 0 by {
            assert(0 <= (i - 1) * n + k < n * n) by (nonlinear_arith)
                requires 0 <= k < n && 0 < i <= n;
        }
        if n == 4 {
            lemma_abs_sum_zero(had4(row), n);
        } else {
            lemma_abs_sum_zero(had8(row), n);
        }
    }
}

/// Squared-difference sum of the 4 × 4 subblock at (`x0`, `y0`): row `j`
/// prefix of width `i`.
pub open spec fn sse4_row(a: PlaneRegion, b: PlaneRegion, x0: int, y0: int, j: int, i: nat) -> int
    decreases i,
{
    if i == 0 {
        0
    } else {
        let dv = a.s(x0 + i - 1, y0 + j) - b.s(x0 + i - 1, y0 + j);
        sse4_row(a, b, x0, y0, j, (i - 1) as nat) + dv * dv
    }
}

/// Squared-difference sum of the first `j` rows of the 4 × 4 subblock.
pub open spec fn sse4(a: PlaneRegion, b: PlaneRegion, x0: int, y0: int, j: nat) -> int
    decreases j,
{
    if j == 0 {
        0
    } else {
        sse4(a, b, x0, y0, (j - 1) as nat) + sse4_row(a, b, x0, y0, (j - 1) as int, 4)
    }
}

/// Weighted squared-error sum over the first `sx` subblocks of subblock row
/// `sy`.
pub open spec fn wsse_row(a: PlaneRegion, b: PlaneRegion, scale: Seq<u32>, sstride: int, sy: int, sx: nat) -> int
    decreases sx,
{
    if sx == 0 {
        0
    } else {
        wsse_row(a, b, scale, sstride, sy, (sx - 1) as nat)
            + scale[sy * sstride + (sx - 1)] * sse4(a, b, ((sx - 1) * 4) as int, sy * 4, 4)
    }
}

/// Weighted squared-error sum over the first `sy` subblock rows.
pub open spec fn wsse_acc(a: PlaneRegion, b: PlaneRegion, scale: Seq<u32>, sstride: int, sxs: nat, sy: nat) -> int
    decreases sy,
{
    if sy == 0 {
        0
    } else {
        wsse_acc(a, b, scale, sstride, sxs, (sy - 1) as nat)
            + wsse_row(a, b, scale, sstride, (sy - 1) as int, sxs)
    }
}

/// The importance-weighted squared error: per-4×4-subblock scales multiply
/// squared sample differences, and the weighted sum is normalised by the
/// fixed-point scale denominator of 256 with rounding.
pub open spec fn spec_weighted_sse(a: PlaneRegion, b: PlaneRegion, scale: Seq<u32>, sstride: int, w: nat, h: nat) -> int {
    rshift(wsse_acc(a, b, scale, sstride, w / 4, h / 4), 8)
}


/// Importance-weighted squared error over a `w` × `h` block: each 4 × 4
/// subblock's squared-difference sum is weighted by its scale entry, and the
/// total is normalised by the fixed-point scale denominator with rounding.
pub fn get_weighted_sse(
    src: &PlaneRegion<'_>,
    dst: &PlaneRegion<'_>,
    scale: &Vec<u32>,
    scale_stride: usize,
    w: usize,
    h: usize,
    bit_depth: usize,
) -> (r: u64)
    requires
        src.wf(),
        dst.wf(),
        4 <= w <= 128,
        4 <= h <= 128,
        w % 4 == 0,
        h % 4 == 0,
        w <= src.rect.width && h <= src.rect.height,
        w <= dst.rect.width && h <= dst.rect.height,
        region_max(*src, src.rect.width as nat, src.rect.height as nat, 4096),
        region_max(*dst, dst.rect.width as nat, dst.rect.height as nat, 4096),
        scale_stride >= w / 4,
        (h / 4 - 1) * scale_stride + w / 4 <= scale@.len(),
        scale_stride <= 64,
        forall |k: int| 0 <= k < scale@.len() ==> #[trigger] scale@[k] < 0x8000,
    ensures
        r as int == spec_weighted_sse(*src, *dst, scale@, scale_stride as int, w as nat, h as nat),
{
    let sxs: usize = w / 4;
    let sys: usize = h / 4;
    let slen: usize = scale.len();
    proof {
        assert(sxs <= 32 && sys <= 32);
        assert(sxs * 4 <= w && sys * 4 <= h) by (nonlinear_arith)
            requires sxs == w / 4 && sys == h / 4 && w % 4 == 0 && h % 4 == 0 && w >= 4 && h >= 4;
    }
    let mut acc: u64 = 0;
    let mut sy: usize = 0;
    while sy < sys
        invariant
            src.wf(),
            dst.wf(),
            4 <= w <= 128,
            4 <= h <= 128,
            sxs <= 32 && sys <= 32,
            sxs * 4 <= w && sys * 4 <= h,
            w <= src.rect.width && h <= src.rect.height,
            w <= dst.rect.width && h <= dst.rect.height,
            region_max(*src, src.rect.width as nat, src.rect.height as nat, 4096),
            region_max(*dst, dst.rect.width as nat, dst.rect.height as nat, 4096),
            scale_stride <= 64,
            scale@.len() == slen,
            (sys - 1) * scale_stride + sxs <= scale@.len() || sys == 0,
            forall |k: int| 0 <= k < scale@.len() ==> #[trigger] scale@[k] < 0x8000,
            sy <= sys,
            acc as int == wsse_acc(*src, *dst, scale@, scale_stride as int, sxs as nat, sy as nat),
            acc as int <= (sy * sxs) * 0x7FFF0000000,
        decreases sys - sy,
    {
        let mut sx: usize = 0;
        let mut rowacc: u64 = 0;
        while sx < sxs
            invariant
                src.wf(),
                dst.wf(),
                4 <= w <= 128,
                4 <= h <= 128,
                sxs <= 32 && sys <= 32,
                sxs * 4 <= w && sys * 4 <= h,
                w <= src.rect.width && h <= src.rect.height,
                w <= dst.rect.width && h <= dst.rect.height,
                region_max(*src, src.rect.width as nat, src.rect.height as nat, 4096),
                region_max(*dst, dst.rect.width as nat, dst.rect.height as nat, 4096),
                scale_stride <= 64,
                scale@.len() == slen,
                (sys - 1) * scale_stride + sxs <= scale@.len() || sys == 0,
                forall |k: int| 0 <= k < scale@.len() ==> #[trigger] scale@[k] < 0x8000,
                sy < sys,
                sx <= sxs,
                rowacc as int == wsse_row(*src, *dst, scale@, scale_stride as int, sy as int, sx as nat),
                rowacc as int <= sx * 0x7FFF0000000,
            decreases sxs - sx,
        {
            // Squared-difference sum of the 4x4 subblock.
            let mut block: u64 = 0;
            let mut j: usize = 0;
            while j < 4
                invariant
                    src.wf(),
                    dst.wf(),
                    sxs * 4 <= w && sys * 4 <= h,
                    w <= src.rect.width && h <= src.rect.height,
                    w <= dst.rect.width && h <= dst.rect.height,
                    region_max(*src, src.rect.width as nat, src.rect.height as nat, 4096),
                    region_max(*dst, dst.rect.width as nat, dst.rect.height as nat, 4096),
                    sy < sys,
                    sx < sxs,
                    j <= 4,
                    block as int == sse4(*src, *dst, (sx * 4) as int, (sy * 4) as int, j as nat),
                    block as int <= j * 0x4000000,
                decreases 4 - j,
            {
                let mut i: usize = 0;
                let mut rsum: u64 = 0;
                while i < 4
                    invariant
                        src.wf(),
                        dst.wf(),
                        sxs * 4 <= w && sys * 4 <= h,
                        w <= src.rect.width && h <= src.rect.height,
                        w <= dst.rect.width && h <= dst.rect.height,
                        region_max(*src, src.rect.width as nat, src.rect.height as nat, 4096),
                        region_max(*dst, dst.rect.width as nat, dst.rect.height as nat, 4096),
                        sy < sys,
                        sx < sxs,
                        j < 4,
                        i <= 4,
                        rsum as int == sse4_row(*src, *dst, (sx * 4) as int, (sy * 4) as int, j as int, i as nat),
                        rsum as int <= i * 0x1000000,
                    decreases 4 - i,
                {
                    proof {
                        assert(sx * 4 + i < sxs * 4) by (nonlinear_arith)
                            requires sx < sxs && i < 4;
                        assert(sy * 4 + j < sys * 4) by (nonlinear_arith)
                            requires sy < sys && j < 4;
                        assert(src.s((sx * 4 + i) as int, (sy * 4 + j) as int) < 4096);
                        assert(dst.s((sx * 4 + i) as int, (sy * 4 + j) as int) < 4096);
                    }
                    let sv = src.get(sx * 4 + i, sy * 4 + j) as i32;
                    let dv = dst.get(sx * 4 + i, sy * 4 + j) as i32;
                    let d: i32 = sv - dv;
                    proof {
                        crate::util::lemma_mul_abs_bound(d as int, d as int, 4096, 4096);
                    }
                    let sq: i64 = (d as i64) * (d as i64);
                    proof {
                        assert((i + 1) as int * 0x1000000 == i * 0x1000000 + 0x1000000) by (nonlinear_arith);
                        assert(0 <= (d as int) * (d as int)) by (nonlinear_arith);
                    }
                    rsum = rsum + sq as u64;
                    i = i + 1;
                }
                proof {
                    assert((j + 1) as int * 0x4000000 == j * 0x4000000 + 0x4000000) by (nonlinear_arith);
                    assert(i * 0x1000000 <= 0x4000000) by (nonlinear_arith)
                        requires i <= 4;
                }
                block = block + rsum;
                j = j + 1;
            }
            proof {
                assert(sy * scale_stride + sx < slen) by (nonlinear_arith)
                    requires sy < sys && sx < sxs && (sys - 1) * scale_stride + sxs <= slen
                        && scale_stride >= 0 && sys >= 1;
            }
            let sv: u32 = scale[sy * scale_stride + sx];
            proof {
                assert(sv == scale@[(sy * scale_stride + sx) as int]);
                assert(sv < 0x8000);
                assert(block as int <= 4 * 0x4000000) by (nonlinear_arith)
                    requires block as int <= j * 0x4000000 && j <= 4 && block >= 0;
                crate::util::lemma_mul_abs_bound(sv as int, block as int, 0x7FFF, 0x10000000);
                assert(sv as int * block as int <= 0x7FFF * 0x10000000);
            }
            let term: u64 = (sv as u64) * block;
            proof {
                assert((sx + 1) as int * 0x7FFF0000000 == sx * 0x7FFF0000000 + 0x7FFF0000000)
                    by (nonlinear_arith);
                assert(sx * 0x7FFF0000000 <= 1024 * 0x7FFF0000000) by (nonlinear_arith)
                    requires 0 <= sx <= 32;
            }
            rowacc = rowacc + term;
            sx = sx + 1;
        }
        proof {
            assert(((sy + 1) * sxs) as int * 0x7FFF0000000
                == (sy * sxs) * 0x7FFF0000000 + sxs * 0x7FFF0000000) by (nonlinear_arith);
            assert(sx * 0x7FFF0000000 <= sxs * 0x7FFF0000000) by (nonlinear_arith)
                requires sx <= sxs;
            assert((sy + 1) * sxs <= 1024) by (nonlinear_arith)
                requires sy < sys && sys <= 32 && sxs <= 32;
            assert(((sy + 1) * sxs) as int * 0x7FFF0000000 <= 1024 * 0x7FFF0000000) by (nonlinear_arith)
                requires (sy + 1) * sxs <= 1024;
        }
        acc = acc + rowacc;
        sy = sy + 1;
    }
    proof {
        assert(sys * sxs <= 1024) by (nonlinear_arith)
            requires sys <= 32 && sxs <= 32;
        assert((sys * sxs) * 0x7FFF0000000 <= 1024 * 0x7FFF0000000) by (nonlinear_arith)
            requires sys * sxs <= 1024;
    }
    let r64 = crate::util::round_shift64(acc as i64, 8);
    proof {
        vstd::arithmetic::power2::lemma2_to64();
        lemma_rshift_range(acc as int, 8, 0, 0x1FFFC0000000000);
    }
    r64 as u64
}

/// One moment of a sample pair: the source sample, the destination sample,
/// their squares, or their product.
pub open spec fn mom_cell(a: PlaneRegion, b: PlaneRegion, i: int, j: int, m: int) -> int {
    if m == 0 {
        a.s(i, j) as int
    } else if m == 1 {
        b.s(i, j) as int
    } else if m == 2 {
        a.s(i, j) * a.s(i, j)
    } else if m == 3 {
        b.s(i, j) * b.s(i, j)
    } else {
        a.s(i, j) * b.s(i, j)
    }
}

/// Moment `m` summed over the first `i` columns of row `j`.
pub open spec fn mom_row(a: PlaneRegion, b: PlaneRegion, j: int, i: nat, m: int) -> int
    decreases i,
{
    if i == 0 {
        0
    } else {
        mom_row(a, b, j, (i - 1) as nat, m) + mom_cell(a, b, i - 1, j, m)
    }
}

/// Moment `m` summed over the first `j` rows of a `w`-wide block.
pub open spec fn mom(a: PlaneRegion, b: PlaneRegion, w: nat, j: nat, m: int) -> int
    decreases j,
{
    if j == 0 {
        0
    } else {
        mom(a, b, w, (j - 1) as nat, m) + mom_row(a, b, (j - 1) as int, w, m)
    }
}

/// The squared error of the block: second moments less twice the cross
/// moment.
pub open spec fn cdef_dist_sse(a: PlaneRegion, b: PlaneRegion, w: nat, h: nat) -> int {
    mom(a, b, w, h, 2) + mom(a, b, w, h, 3) - 2 * mom(a, b, w, h, 4)
}

/// The source variance term: the second moment less the rounded, normalised
/// square of the first, floored at zero; the narrow block variant rescales
/// by four.
pub open spec fn cdef_dist_var(a: PlaneRegion, b: PlaneRegion, w: nat, h: nat, m: int) -> int {
    let s1 = mom(a, b, w, h, m);
    let s2 = mom(a, b, w, h, m + 2);
    if w == 8 {
        if s2 - rshift(s1 * s1, 6) < 0 { 0 } else { s2 - rshift(s1 * s1, 6) }
    } else {
        (if s2 - rshift(s1 * s1, 4) < 0 { 0 } else { s2 - rshift(s1 * s1, 4) }) * 4
    }
}

/// The statistics the CDEF distortion kernel derives from an 8 × 8 or 4 × 4
/// block pair: squared error and the source and destination variance terms.
/// The perceptual scaling the encoder applies to these lies outside this
/// library.
#[verifier::rlimit(100)]
pub fn cdef_dist_kernel_stats(
    src: &PlaneRegion<'_>,
    dst: &PlaneRegion<'_>,
    w: usize,
    h: usize,
    bit_depth: usize,
) -> (r: (u64, u32, u32))
    requires
        src.wf(),
        dst.wf(),
        w == h && (w == 4 || w == 8),
        w <= src.rect.width && h <= src.rect.height,
        w <= dst.rect.width && h <= dst.rect.height,
        8 <= bit_depth <= 12,
        region_max(*src, src.rect.width as nat, src.rect.height as nat, 4096),
        region_max(*dst, dst.rect.width as nat, dst.rect.height as nat, 4096),
    ensures
        r.0 as int == cdef_dist_sse(*src, *dst, w as nat, h as nat),
        r.1 as int == cdef_dist_var(*src, *dst, w as nat, h as nat, 0),
        r.2 as int == cdef_dist_var(*src, *dst, w as nat, h as nat, 1),
{
    let mut sum_s: u64 = 0;
    let mut sum_d: u64 = 0;
    let mut sum_s2: u64 = 0;
    let mut sum_d2: u64 = 0;
    let mut sum_sd: u64 = 0;
    let mut sse: u64 = 0;
    let mut j: usize = 0;
    while j < h
        invariant
            src.wf(),
            dst.wf(),
            w == h && (w == 4 || w == 8),
            w <= src.rect.width && h <= src.rect.height,
            w <= dst.rect.width && h <= dst.rect.height,
            region_max(*src, src.rect.width as nat, src.rect.height as nat, 4096),
            region_max(*dst, dst.rect.width as nat, dst.rect.height as nat, 4096),
            j <= h,
            sum_s as int == mom(*src, *dst, w as nat, j as nat, 0),
            sum_d as int == mom(*src, *dst, w as nat, j as nat, 1),
            sum_s2 as int == mom(*src, *dst, w as nat, j as nat, 2),
            sum_d2 as int == mom(*src, *dst, w as nat, j as nat, 3),
            sum_sd as int == mom(*src, *dst, w as nat, j as nat, 4),
            sse as int == sum_s2 + sum_d2 - 2 * sum_sd,
            sum_s <= j * (8 * 4095),
            sum_d <= j * (8 * 4095),
            sum_s2 <= j * (8 * 16769025),
            sum_d2 <= j * (8 * 16769025),
            sum_sd <= j * (8 * 16769025),
            sse <= j * (8 * 16769025) * 2,
        decreases h - j,
    {
        let mut i: usize = 0;
        let ghost row0 = (sum_s, sum_d, sum_s2, sum_d2, sum_sd, sse);
        proof {
            assert(j * (8 * 16769025) <= 8 * 8 * 16769025) by (nonlinear_arith)
                requires 0 <= j <= 8;
            assert(j * (8 * 4095) <= 8 * 8 * 4095) by (nonlinear_arith)
                requires 0 <= j <= 8;
        }
        while i < w
            invariant
                src.wf(),
                dst.wf(),
                w == h && (w == 4 || w == 8),
                w <= src.rect.width && h <= src.rect.height,
                w <= dst.rect.width && h <= dst.rect.height,
                region_max(*src, src.rect.width as nat, src.rect.height as nat, 4096),
                region_max(*dst, dst.rect.width as nat, dst.rect.height as nat, 4096),
                j < h,
                i <= w,
                sum_s as int == row0.0 + mom_row(*src, *dst, j as int, i as nat, 0),
                sum_d as int == row0.1 + mom_row(*src, *dst, j as int, i as nat, 1),
                sum_s2 as int == row0.2 + mom_row(*src, *dst, j as int, i as nat, 2),
                sum_d2 as int == row0.3 + mom_row(*src, *dst, j as int, i as nat, 3),
                sum_sd as int == row0.4 + mom_row(*src, *dst, j as int, i as nat, 4),
                sse as int == sum_s2 + sum_d2 - 2 * sum_sd,
                row0.0 <= j * (8 * 4095) && sum_s as int <= row0.0 + i * 4095,
                row0.1 <= j * (8 * 4095) && sum_d as int <= row0.1 + i * 4095,
                row0.2 <= j * (8 * 16769025) && sum_s2 as int <= row0.2 + i * 16769025,
                row0.3 <= j * (8 * 16769025) && sum_d2 as int <= row0.3 + i * 16769025,
                row0.4 <= j * (8 * 16769025) && sum_sd as int <= row0.4 + i * 16769025,
                j * (8 * 16769025) <= 8 * 8 * 16769025,
                j * (8 * 4095) <= 8 * 8 * 4095,
                sse as int <= (row0.2 + row0.3) + i * (2 * 16769025),
            decreases w - i,
        {
            let sv = src.get(i, j) as u64;
            let dv = dst.get(i, j) as u64;
            proof {
                assert(src.s(i as int, j as int) < 4096);
                assert(dst.s(i as int, j as int) < 4096);
                crate::util::lemma_mul_abs_bound(sv as int, sv as int, 4095, 4095);
                crate::util::lemma_mul_abs_bound(dv as int, dv as int, 4095, 4095);
                crate::util::lemma_mul_abs_bound(sv as int, dv as int, 4095, 4095);
                assert(0 <= sv as int * sv as int) by (nonlinear_arith);
                assert(0 <= dv as int * dv as int) by (nonlinear_arith);
                assert(0 <= sv as int * dv as int) by (nonlinear_arith);
                assert((sv as int - dv as int) * (sv as int - dv as int)
                    == sv as int * sv as int + dv as int * dv as int
                        - 2 * (sv as int * dv as int)) by (nonlinear_arith);
                assert(0 <= (sv as int - dv as int) * (sv as int - dv as int)) by (nonlinear_arith);
                assert(i * 4095 <= 8 * 4095) by (nonlinear_arith)
                    requires 0 <= i <= 8;
                assert(i * 16769025 <= 8 * 16769025) by (nonlinear_arith)
                    requires 0 <= i <= 8;
                assert(i * (2 * 16769025) <= 8 * (2 * 16769025)) by (nonlinear_arith)
                    requires 0 <= i <= 8;
            }
            sum_s = sum_s + sv;
            sum_d = sum_d + dv;
            sum_s2 = sum_s2 + sv * sv;
            sum_d2 = sum_d2 + dv * dv;
            sum_sd = sum_sd + sv * dv;
            let diff: u64 = if sv >= dv { sv - dv } else { dv - sv };
            proof {
                crate::util::lemma_mul_abs_bound(diff as int, diff as int, 4095, 4095);
                assert(diff as int * diff as int
                    == (sv as int - dv as int) * (sv as int - dv as int)) by (nonlinear_arith)
                    requires
                        diff as int == sv as int - dv as int || diff as int == dv as int - sv as int,
                ;
            }
            sse = sse + diff * diff;
            i = i + 1;
        }
        proof {
            assert((j + 1) as int * (8 * 4095) == j * (8 * 4095) + 8 * 4095) by (nonlinear_arith);
            assert((j + 1) as int * (8 * 16769025) == j * (8 * 16769025) + 8 * 16769025)
                by (nonlinear_arith);
            assert((j + 1) as int * (8 * 16769025) * 2 == j * (8 * 16769025) * 2 + 8 * 16769025 * 2)
                by (nonlinear_arith);
            assert(j * (8 * 16769025) * 2 <= 8 * (8 * 16769025) * 2) by (nonlinear_arith)
                requires 0 <= j <= 8;
            assert(i * 4095 <= 8 * 4095) by (nonlinear_arith)
                requires i <= 8;
            assert(i * 16769025 <= 8 * 16769025) by (nonlinear_arith)
                requires i <= 8;
            assert(i * (2 * 16769025) <= 8 * (2 * 16769025)) by (nonlinear_arith)
                requires i <= 8;
        }
        j = j + 1;
    }
    proof {
        assert(h * (8 * 4095) <= 8 * (8 * 4095)) by (nonlinear_arith)
            requires h <= 8;
        assert(h * (8 * 16769025) <= 8 * (8 * 16769025)) by (nonlinear_arith)
            requires h <= 8;
        assert(h * (8 * 16769025) * 2 <= 8 * (8 * 16769025) * 2) by (nonlinear_arith)
            requires h <= 8;
        crate::util::lemma_mul_abs_bound(sum_s as int, sum_s as int, 262080, 262080);
        crate::util::lemma_mul_abs_bound(sum_d as int, sum_d as int, 262080, 262080);
        assert(0 <= sum_s as int * sum_s as int) by (nonlinear_arith);
        assert(0 <= sum_d as int * sum_d as int) by (nonlinear_arith);
    }
    let shift: usize = if w == 8 { 6 } else { 4 };
    let snorm: u64 = crate::util::round_shift64((sum_s * sum_s) as i64, shift) as u64;
    let dnorm: u64 = crate::util::round_shift64((sum_d * sum_d) as i64, shift) as u64;
    proof {
        vstd::arithmetic::power2::lemma2_to64();
        lemma_rshift_range((sum_s * sum_s) as int, shift as nat, 0, 68685926400);
        lemma_rshift_range((sum_d * sum_d) as int, shift as nat, 0, 68685926400);
    }
    let svar0: u64 = if sum_s2 >= snorm { sum_s2 - snorm } else { 0 };
    let dvar0: u64 = if sum_d2 >= dnorm { sum_d2 - dnorm } else { 0 };
    let svar: u64 = if w == 8 { svar0 } else { svar0 * 4 };
    let dvar: u64 = if w == 8 { dvar0 } else { dvar0 * 4 };
    (sse, svar as u32, dvar as u32)
}

} // verus!
