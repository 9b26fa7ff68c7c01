//! Padded single-channel sample buffers. A `Plane` owns a `stride` ×
//! `alloc_height` grid of 16-bit samples whose visible region starts at
//! (`xorigin`, `yorigin`); the surrounding margin is refilled by `pad` with
//! replicated edge samples so that kernels may read past block edges freely.

use vstd::prelude::*;
use crate::util::sclamp;

verus! {

/// Flat index of grid coordinate (`x`, `y`) for a row pitch of `stride`.
pub open spec fn gidx(stride: int, x: int, y: int) -> int {
    y * stride + x
}

/// The sample at grid coordinate (`x`, `y`) of a flat buffer.
pub open spec fn at(data: Seq<u16>, stride: int, x: int, y: int) -> u16 {
    data[gidx(stride, x, y)]
}

/// A grid coordinate indexes within the first `rows` rows.
pub proof fn lemma_gidx_bounds(stride: int, rows: int, x: int, y: int)
    requires
        0 <= x < stride,
        0 <= y < rows,
    ensures
        0 <= gidx(stride, x, y) < stride * rows,
{
    assert(y * stride + x < stride * rows) by (nonlinear_arith)
        requires 0 <= x < stride && 0 <= y < rows;
    assert(y * stride >= 0) by (nonlinear_arith)
        requires y >= 0 && stride > 0;
}

/// Distinct in-row coordinates have distinct flat indices.
pub proof fn lemma_gidx_injective(stride: int, x1: int, y1: int, x2: int, y2: int)
    requires
        0 <= x1 < stride,
        0 <= x2 < stride,
        gidx(stride, x1, y1) == gidx(stride, x2, y2),
    ensures
        x1 == x2 && y1 == y2,
{
    assert(y1 * stride + x1 == y2 * stride + x2 && 0 <= x1 < stride && 0 <= x2 < stride
        ==> y1 == y2 && x1 == x2) by (nonlinear_arith);
}

/// Geometry of a plane: visible size, row pitch, allocation height, chroma
/// decimation, and the origin of the visible region inside the allocation.
#[derive(Debug, Clone, Copy, PartialEq, Eq, Structural)]
pub struct PlaneConfig {
    pub stride: usize,
    pub alloc_height: usize,
    pub width: usize,
    pub height: usize,
    pub xdec: usize,
    pub ydec: usize,
    pub xorigin: usize,
    pub yorigin: usize,
}

impl PlaneConfig {
    /// A geometry whose visible rectangle fits inside its allocation.
    pub open spec fn wf(self) -> bool {
        &&& 1 <= self.width
        &&& 1 <= self.height
        &&& self.xorigin + self.width <= self.stride
        &&& self.yorigin + self.height <= self.alloc_height
        &&& self.stride <= 0x1000_0000
        &&& self.alloc_height <= 0x1000_0000
        &&& self.stride * self.alloc_height <= usize::MAX
    }

    /// Builds the geometry from the visible size, decimation, and the four
    /// padding margins; the row pitch covers exactly the padded width.
    pub fn new(
        width: usize,
        height: usize,
        xdec: usize,
        ydec: usize,
        pad_left: usize,
        pad_right: usize,
        pad_top: usize,
        pad_bottom: usize,
    ) -> (r: PlaneConfig)
        requires
            1 <= width <= 0x4000,
            1 <= height <= 0x4000,
            pad_left <= 0x4000,
            pad_right <= 0x4000,
            pad_top <= 0x4000,
            pad_bottom <= 0x4000,
        ensures
            r.wf(),
            r.width == width,
            r.height == height,
            r.xdec == xdec,
            r.ydec == ydec,
            r.xorigin == pad_left,
            r.yorigin == pad_top,
            r.stride == pad_left + width + pad_right,
            r.alloc_height == pad_top + height + pad_bottom,
    {
        let stride: usize = pad_left + width + pad_right;
        let alloc_height: usize = pad_top + height + pad_bottom;
        proof {
            assert(stride * alloc_height <= 0xC000 * 0xC000) by (nonlinear_arith)
                requires 0 < stride <= 0xC000 && 0 < alloc_height <= 0xC000;
            assert(0xC000 * 0xC000 < usize::MAX);
        }
        PlaneConfig {
            stride,
            alloc_height,
            width,
            height,
            xdec,
            ydec,
            xorigin: pad_left,
            yorigin: pad_top,
        }
    }
}

/// A single-channel padded sample buffer.
pub struct Plane {
    pub data: Vec<u16>,
    pub cfg: PlaneConfig,
}

impl Plane {
    /// The buffer covers exactly the configured allocation.
    pub open spec fn wf(self) -> bool {
        &&& self.cfg.wf()
        &&& self.data@.len() == self.cfg.stride * self.cfg.alloc_height
    }

    /// The sample at absolute grid coordinate (`x`, `y`).
    pub open spec fn sample(self, x: int, y: int) -> u16 {
        at(self.data@, self.cfg.stride as int, x, y)
    }

    /// Flat index of an absolute grid coordinate, proven in bounds.
    pub fn didx(&self, x: usize, y: usize) -> (i: usize)
        requires
            self.wf(),
            x < self.cfg.stride,
            y < self.cfg.alloc_height,
        ensures
            i == gidx(self.cfg.stride as int, x as int, y as int),
            i < self.data@.len(),
    {
        proof {
            lemma_gidx_bounds(self.cfg.stride as int, self.cfg.alloc_height as int, x as int, y as int);
        }
        y * self.cfg.stride + x
    }

    /// Read one sample at an absolute grid coordinate.
    pub fn get(&self, x: usize, y: usize) -> (v: u16)
        requires
            self.wf(),
            x < self.cfg.stride,
            y < self.cfg.alloc_height,
        ensures
            v == self.sample(x as int, y as int),
    {
        let i = self.didx(x, y);
        self.data[i]
    }

    /// Write one sample at an absolute grid coordinate; every other sample
    /// keeps its value.
    pub fn put(&mut self, x: usize, y: usize, v: u16)
        requires
            old(self).wf(),
            x < old(self).cfg.stride,
            y < old(self).cfg.alloc_height,
        ensures
            final(self).wf(),
            final(self).cfg == old(self).cfg,
            final(self).data@.len() == old(self).data@.len(),
            final(self).data@ == old(self).data@.update(
                gidx(old(self).cfg.stride as int, x as int, y as int), v),
            final(self).sample(x as int, y as int) == v,
            forall |x2: int, y2: int|
                0 <= x2 < final(self).cfg.stride && 0 <= y2 < final(self).cfg.alloc_height
                    && !(x2 == x as int && y2 == y as int)
                    ==> #[trigger] final(self).sample(x2, y2) == old(self).sample(x2, y2),
    {
        let i = self.didx(x, y);
        self.data[i] = v;
        proof {
            let stride = self.cfg.stride as int;
            let rows = self.cfg.alloc_height as int;
            assert forall |x2: int, y2: int|
                0 <= x2 < stride && 0 <= y2 < rows && !(x2 == x as int && y2 == y as int)
                implies #[trigger] self.sample(x2, y2) == old(self).sample(x2, y2) by {
                lemma_gidx_bounds(stride, rows, x2, y2);
                if gidx(stride, x2, y2) == gidx(stride, x as int, y as int) {
                    lemma_gidx_injective(stride, x2, y2, x as int, y as int);
                }
            }
        }
    }

    /// Allocates a plane for a `width` × `height` visible region with the
    /// given decimation and padding on every side, filled with a mid-range
    /// sample value.
    pub fn new(
        width: usize,
        height: usize,
        xdec: usize,
        ydec: usize,
        xpad: usize,
        ypad: usize,
    ) -> (r: Plane)
        requires
            1 <= width <= 0x4000,
            1 <= height <= 0x4000,
            xpad <= 0x4000,
            ypad <= 0x4000,
        ensures
            r.wf(),
            r.cfg.width == width,
            r.cfg.height == height,
            r.cfg.xdec == xdec,
            r.cfg.ydec == ydec,
            r.cfg.xorigin == xpad,
            r.cfg.yorigin == ypad,
            r.cfg.stride == xpad + width + xpad,
            r.cfg.alloc_height == ypad + height + ypad,
            forall |i: int| 0 <= i < r.data@.len() ==> r.data@[i] == 128u16,
    {
        let cfg = PlaneConfig::new(width, height, xdec, ydec, xpad, xpad, ypad, ypad);
        let len: usize = cfg.stride * cfg.alloc_height;
        let mut data: Vec<u16> = Vec::new();
        while data.len() < len
            invariant
                data@.len() <= len,
                forall |i: int| 0 <= i < data@.len() ==> data@[i] == 128u16,
            decreases len - data@.len(),
        {
            data.push(128u16);
        }
        Plane { data, cfg }
    }

}

/// Replicated-edge padding over a visible region, and a cheap probe of it.
pub trait PlanePad: Sized {
    /// When `pad(w, h)` may be called.
    spec fn can_pad(&self, w: usize, h: usize) -> bool;

    /// How the buffer after `pad(w, h)` relates to the buffer before it.
    spec fn pad_rel(prev: Self, cur: Self, w: usize, h: usize) -> bool;

    /// When `probe_padding(w, h)` may be called.
    spec fn can_probe(&self, w: usize, h: usize) -> bool;

    /// What `probe_padding(w, h)` returns.
    spec fn probe_rel(&self, w: usize, h: usize, r: bool) -> bool;

    fn pad(&mut self, w: usize, h: usize)
        requires
            old(self).can_pad(w, h),
        ensures
            Self::pad_rel(*old(self), *final(self), w, h),
    ;

    fn probe_padding(&self, w: usize, h: usize) -> (r: bool)
        requires
            self.can_probe(w, h),
        ensures
            self.probe_rel(w, h, r),
    ;
}

/// Visible size of a decimated channel: dimension `v` shrunk by `dec`.
pub open spec fn decimated_size(v: int, dec: int) -> int {
    (v + dec) / (if dec == 0 { 1int } else { 2int })
}

impl PlanePad for Plane {
    open spec fn can_pad(&self, w: usize, h: usize) -> bool {
        &&& self.wf()
        &&& 1 <= w <= self.cfg.width
        &&& 1 <= h <= self.cfg.height
    }

    /// Afterwards every sample of the allocation equals the previous sample
    /// at the visible coordinate nearest to it, so the whole margin holds
    /// replicated edge samples.
    open spec fn pad_rel(prev: Self, cur: Self, w: usize, h: usize) -> bool {
        &&& cur.wf()
        &&& cur.cfg == prev.cfg
        &&& cur.data@.len() == prev.data@.len()
        &&& forall |x: int, y: int|
            0 <= x < prev.cfg.stride && 0 <= y < prev.cfg.alloc_height
                ==> #[trigger] cur.sample(x, y) == prev.sample(
                    sclamp(x, prev.cfg.xorigin as int, prev.cfg.xorigin + w - 1),
                    sclamp(y, prev.cfg.yorigin as int, prev.cfg.yorigin + h - 1))
    }

    open spec fn can_probe(&self, w: usize, h: usize) -> bool {
        &&& self.wf()
        &&& self.cfg.xdec <= 1 && self.cfg.ydec <= 1
        &&& 1 <= decimated_size(w as int, self.cfg.xdec as int) <= self.cfg.width
        &&& 1 <= decimated_size(h as int, self.cfg.ydec as int) <= self.cfg.height
        &&& w + 1 <= usize::MAX && h + 1 <= usize::MAX
    }

    /// Compares the bottom-right visible corner of the (decimated) region
    /// against three samples of the right and bottom margin.
    open spec fn probe_rel(&self, w: usize, h: usize, r: bool) -> bool {
        let cw = decimated_size(w as int, self.cfg.xdec as int);
        let ch = decimated_size(h as int, self.cfg.ydec as int);
        let corner = self.sample(self.cfg.xorigin + cw - 1, self.cfg.yorigin + ch - 1);
        r == {
            &&& self.sample(self.cfg.stride - 1, self.cfg.yorigin + ch - 1) == corner
            &&& self.sample(self.cfg.xorigin + cw - 1, self.cfg.alloc_height - 1) == corner
            &&& self.sample(self.cfg.stride - 1, self.cfg.alloc_height - 1) == corner
        }
    }

    /// Re-stripe the replicated margin around the visible region
    /// `[0, w) × [0, h)`: afterwards every sample of the allocation equals the
    /// visible sample nearest to it. Idempotent, since the visible region is
    /// left untouched.
    fn pad(&mut self, w: usize, h: usize) {
        let ghost orig = *self;
        let stride = self.cfg.stride;
        let alloc_height = self.cfg.alloc_height;
        let xo = self.cfg.xorigin;
        let yo = self.cfg.yorigin;
        let ghost xlo = xo as int;
        let ghost xhi = xo + w - 1;
        let ghost ylo = yo as int;
        let ghost yhi = yo + h - 1;

        // Phase 1: replicate the row edges of every visible row.
        let mut y = yo;
        while y < yo + h
            invariant
                self.wf(),
                self.cfg == orig.cfg,
                self.data@.len() == orig.data@.len(),
                orig.wf(),
                1 <= w <= orig.cfg.width,
                1 <= h <= orig.cfg.height,
                stride == orig.cfg.stride,
                alloc_height == orig.cfg.alloc_height,
                xo == orig.cfg.xorigin,
                yo == orig.cfg.yorigin,
                xlo == xo as int && xhi == xo + w - 1,
                ylo == yo as int && yhi == yo + h - 1,
                yo <= y <= yo + h,
                forall |x2: int, y2: int|
                    0 <= x2 < stride && ylo <= y2 < y
                        ==> #[trigger] self.sample(x2, y2) == orig.sample(sclamp(x2, xlo, xhi), y2),
                forall |x2: int, y2: int|
                    0 <= x2 < stride && 0 <= y2 < alloc_height && !(ylo <= y2 < y)
                        ==> #[trigger] self.sample(x2, y2) == orig.sample(x2, y2),
            decreases yo + h - y,
        {
            let left_val = self.get(xo, y);
            let right_val = self.get(xo + w - 1, y);
            let ghost row_before = *self;
            let mut x: usize = 0;
            while x < xo
                invariant
                    self.wf(),
                    self.cfg == orig.cfg,
                    self.data@.len() == orig.data@.len(),
                    stride == self.cfg.stride,
                    alloc_height == self.cfg.alloc_height,
                    xo == self.cfg.xorigin,
                    x <= xo,
                    yo <= y < alloc_height,
                    xo + w <= stride,
                    left_val == row_before.sample(xlo, y as int),
                    xlo == xo as int,
                    forall |x2: int| 0 <= x2 < x
                        ==> #[trigger] self.sample(x2, y as int) == left_val,
                    forall |x2: int, y2: int|
                        0 <= x2 < stride && 0 <= y2 < alloc_height
                            && !(0 <= x2 < x && y2 == y as int)
                            ==> #[trigger] self.sample(x2, y2) == row_before.sample(x2, y2),
                decreases xo - x,
            {
                self.put(x, y, left_val);
                x = x + 1;
            }
            let mut x = xo + w;
            let ghost mid = *self;
            while x < stride
                invariant
                    self.wf(),
                    self.cfg == orig.cfg,
                    self.data@.len() == orig.data@.len(),
                    stride == self.cfg.stride,
                    alloc_height == self.cfg.alloc_height,
                    xo == self.cfg.xorigin,
                    xo + w <= x <= stride,
                    yo <= y < alloc_height,
                    right_val == row_before.sample(xhi, y as int),
                    xhi == xo + w - 1,
                    forall |x2: int| xo + w <= x2 < x
                        ==> #[trigger] self.sample(x2, y as int) == right_val,
                    forall |x2: int, y2: int|
                        0 <= x2 < stride && 0 <= y2 < alloc_height
                            && !(xo + w <= x2 < x && y2 == y as int)
                            ==> #[trigger] self.sample(x2, y2) == mid.sample(x2, y2),
                decreases stride - x,
            {
                self.put(x, y, right_val);
                x = x + 1;
            }
            proof {
                assert forall |x2: int, y2: int|
                    0 <= x2 < stride && ylo <= y2 < y + 1
                    implies #[trigger] self.sample(x2, y2) == orig.sample(sclamp(x2, xlo, xhi), y2) by {
                    if y2 == y as int {
                        if x2 < xlo {
                            assert(self.sample(x2, y2) == left_val);
                            assert(row_before.sample(xlo, y as int) == orig.sample(xlo, y2));
                        } else if x2 > xhi {
                            assert(self.sample(x2, y2) == right_val);
                            assert(row_before.sample(xhi, y as int) == orig.sample(xhi, y2));
                        } else {
                            assert(self.sample(x2, y2) == mid.sample(x2, y2));
                            assert(mid.sample(x2, y2) == row_before.sample(x2, y2));
                            assert(row_before.sample(x2, y2) == orig.sample(x2, y2));
                        }
                    }
                }
            }
            y = y + 1;
        }

        let ghost striped = *self;

        // Phase 2: copy the first padded visible row upward.
        let mut y: usize = 0;
        while y < yo
            invariant
                self.wf(),
                self.cfg == orig.cfg,
                self.data@.len() == orig.data@.len(),
                stride == self.cfg.stride,
                alloc_height == self.cfg.alloc_height,
                xo == self.cfg.xorigin,
                yo == self.cfg.yorigin,
                y <= yo,
                yo + h <= alloc_height,
                ylo == yo as int,
                forall |x2: int, y2: int|
                    0 <= x2 < stride && 0 <= y2 < y
                        ==> #[trigger] self.sample(x2, y2) == striped.sample(x2, ylo),
                forall |x2: int, y2: int|
                    0 <= x2 < stride && y <= y2 < alloc_height
                        ==> #[trigger] self.sample(x2, y2) == striped.sample(x2, y2),
            decreases yo - y,
        {
            let ghost before = *self;
            let mut x: usize = 0;
            while x < stride
                invariant
                    self.wf(),
                    self.cfg == orig.cfg,
                    self.data@.len() == orig.data@.len(),
                    stride == self.cfg.stride,
                    alloc_height == self.cfg.alloc_height,
                    x <= stride,
                    y < yo,
                    yo < alloc_height,
                    forall |x2: int| 0 <= x2 < x
                        ==> #[trigger] self.sample(x2, y as int) == before.sample(x2, yo as int),
                    forall |x2: int, y2: int|
                        0 <= x2 < stride && 0 <= y2 < alloc_height
                            && !(0 <= x2 < x && y2 == y as int)
                            ==> #[trigger] self.sample(x2, y2) == before.sample(x2, y2),
                decreases stride - x,
            {
                let v = self.get(x, yo);
                self.put(x, y, v);
                x = x + 1;
            }
            y = y + 1;
        }

        let ghost topped = *self;

        // Phase 3: copy the last padded visible row downward.
        let mut y = yo + h;
        while y < alloc_height
            invariant
                self.wf(),
                self.cfg == orig.cfg,
                self.data@.len() == orig.data@.len(),
                stride == self.cfg.stride,
                alloc_height == self.cfg.alloc_height,
                yo + h <= y <= alloc_height,
                yhi == yo + h - 1,
                0 <= yhi,
                yhi < alloc_height,
                forall |x2: int, y2: int|
                    0 <= x2 < stride && yo + h <= y2 < y
                        ==> #[trigger] self.sample(x2, y2) == topped.sample(x2, yhi),
                forall |x2: int, y2: int|
                    0 <= x2 < stride && 0 <= y2 < alloc_height && !(yo + h <= y2 < y)
                        ==> #[trigger] self.sample(x2, y2) == topped.sample(x2, y2),
            decreases alloc_height - y,
        {
            let ghost before = *self;
            let mut x: usize = 0;
            while x < stride
                invariant
                    self.wf(),
                    self.cfg == orig.cfg,
                    self.data@.len() == orig.data@.len(),
                    stride == self.cfg.stride,
                    alloc_height == self.cfg.alloc_height,
                    x <= stride,
                    yo + h <= y < alloc_height,
                    yhi == yo + h - 1,
                    yhi < alloc_height,
                    0 <= yhi,
                    forall |x2: int| 0 <= x2 < x
                        ==> #[trigger] self.sample(x2, y as int) == before.sample(x2, yhi),
                    forall |x2: int, y2: int|
                        0 <= x2 < stride && 0 <= y2 < alloc_height
                            && !(0 <= x2 < x && y2 == y as int)
                            ==> #[trigger] self.sample(x2, y2) == before.sample(x2, y2),
                decreases stride - x,
            {
                let v = self.get(x, yo + h - 1);
                self.put(x, y, v);
                x = x + 1;
            }
            y = y + 1;
        }

        proof {
            assert forall |x: int, y: int|
                0 <= x < self.cfg.stride && 0 <= y < self.cfg.alloc_height
                implies #[trigger] self.sample(x, y) == orig.sample(
                    sclamp(x, xlo, xhi), sclamp(y, ylo, yhi)) by {
                let cx = sclamp(x, xlo, xhi);
                let cy = sclamp(y, ylo, yhi);
                if y < ylo {
                    assert(self.sample(x, y) == topped.sample(x, y));
                    assert(topped.sample(x, y) == striped.sample(x, ylo));
                    assert(striped.sample(x, ylo) == orig.sample(cx, ylo));
                } else if y > yhi {
                    assert(self.sample(x, y) == topped.sample(x, yhi));
                    assert(topped.sample(x, yhi) == striped.sample(x, yhi));
                    assert(striped.sample(x, yhi) == orig.sample(cx, yhi));
                } else {
                    assert(self.sample(x, y) == topped.sample(x, y));
                    assert(topped.sample(x, y) == striped.sample(x, y));
                    assert(striped.sample(x, y) == orig.sample(cx, y));
                }
            }
        }
    }

    fn probe_padding(&self, w: usize, h: usize) -> (r: bool) {
        let width: usize = if self.cfg.xdec == 0 { w } else { (w + 1) / 2 };
        let height: usize = if self.cfg.ydec == 0 { h } else { (h + 1) / 2 };
        let corner_value = self.get(self.cfg.xorigin + width - 1, self.cfg.yorigin + height - 1);
        let right = self.get(self.cfg.stride - 1, self.cfg.yorigin + height - 1);
        let bottom = self.get(self.cfg.xorigin + width - 1, self.cfg.alloc_height - 1);
        let far = self.get(self.cfg.stride - 1, self.cfg.alloc_height - 1);
        right == corner_value && bottom == corner_value && far == corner_value
    }
}

/// A two-dimensional offset in a plane, in samples relative to the visible
/// origin; negative values reach into the left or top margin.
#[derive(Debug, Clone, Copy, PartialEq, Eq, Structural)]
pub struct PlaneOffset {
    pub x: isize,
    pub y: isize,
}

impl Default for PlaneOffset {
    /// The zero offset.
    fn default() -> (r: PlaneOffset)
        ensures
            r.x == 0 && r.y == 0,
    {
        PlaneOffset { x: 0, y: 0 }
    }
}

/// A cursor into a plane: a position relative to the visible origin, moved by
/// cheap arithmetic and dereferenced only after an accessibility check.
pub struct PlaneSlice<'a> {
    pub plane: &'a Plane,
    pub x: isize,
    pub y: isize,
}

impl<'a> PlaneSlice<'a> {
    /// Coordinates stay far from the `isize` range ends, so repositioning
    /// arithmetic cannot overflow.
    pub open spec fn in_range(&self) -> bool {
        -0x1000_0000 <= self.x <= 0x1000_0000 && -0x1000_0000 <= self.y <= 0x1000_0000
    }

    /// The absolute grid column of offset `add_x` right of the cursor.
    pub open spec fn abs_x(&self, add_x: int) -> int {
        self.x + add_x + self.plane.cfg.xorigin
    }

    /// The absolute grid row of offset `add_y` below the cursor.
    pub open spec fn abs_y(&self, add_y: int) -> int {
        self.y + add_y + self.plane.cfg.yorigin
    }

    pub fn new(plane: &'a Plane, x: isize, y: isize) -> (r: PlaneSlice<'a>)
        ensures
            r.plane == plane && r.x == x && r.y == y,
    {
        PlaneSlice { plane, x, y }
    }

    /// Clamp the cursor into the padded neighbourhood of the visible region.
    pub fn clamp(&self) -> (r: PlaneSlice<'a>)
        requires
            self.plane.wf(),
            self.plane.cfg.stride <= 0x1000_0000,
            self.plane.cfg.alloc_height <= 0x1000_0000,
        ensures
            r.plane == self.plane,
            r.x as int == sclamp(self.x as int, -(self.plane.cfg.xorigin as int), self.plane.cfg.width as int),
            r.y as int == sclamp(self.y as int, -(self.plane.cfg.yorigin as int), self.plane.cfg.height as int),
            r.in_range(),
    {
        let xlo: isize = -(self.plane.cfg.xorigin as isize);
        let xhi: isize = self.plane.cfg.width as isize;
        let ylo: isize = -(self.plane.cfg.yorigin as isize);
        let yhi: isize = self.plane.cfg.height as isize;
        let x = if self.x < xlo { xlo } else if self.x > xhi { xhi } else { self.x };
        let y = if self.y < ylo { ylo } else if self.y > yhi { yhi } else { self.y };
        PlaneSlice { plane: self.plane, x, y }
    }

    /// Move the cursor right by `xo` and down by `yo`.
    pub fn subslice(&self, xo: usize, yo: usize) -> (r: PlaneSlice<'a>)
        requires
            self.in_range(),
            xo <= 0x1000_0000,
            yo <= 0x1000_0000,
        ensures
            r.plane == self.plane,
            r.x as int == self.x + xo,
            r.y as int == self.y + yo,
    {
        PlaneSlice { plane: self.plane, x: self.x + xo as isize, y: self.y + yo as isize }
    }

    /// Move the cursor by a signed offset in both directions.
    pub fn reslice(&self, xo: isize, yo: isize) -> (r: PlaneSlice<'a>)
        requires
            self.in_range(),
            -0x1000_0000 <= xo < 0x1000_0000,
            -0x1000_0000 <= yo < 0x1000_0000,
        ensures
            r.plane == self.plane,
            r.x as int == self.x + xo,
            r.y as int == self.y + yo,
    {
        PlaneSlice { plane: self.plane, x: self.x + xo, y: self.y + yo }
    }

    /// Move the cursor up by `i` rows.
    pub fn go_up(&self, i: usize) -> (r: PlaneSlice<'a>)
        requires
            self.in_range(),
            i <= 0x1000_0000,
        ensures
            r.plane == self.plane,
            r.x == self.x,
            r.y as int == self.y - i,
    {
        PlaneSlice { plane: self.plane, x: self.x, y: self.y - i as isize }
    }

    /// Move the cursor left by `i` columns.
    pub fn go_left(&self, i: usize) -> (r: PlaneSlice<'a>)
        requires
            self.in_range(),
            i <= 0x1000_0000,
        ensures
            r.plane == self.plane,
            r.x as int == self.x - i,
            r.y == self.y,
    {
        PlaneSlice { plane: self.plane, x: self.x - i as isize, y: self.y }
    }

    /// Whether the sample `add_x` right of and `add_y` below the cursor lies
    /// within the allocation.
    pub fn accessible(&self, add_x: usize, add_y: usize) -> (r: bool)
        requires
            self.in_range(),
            self.plane.wf(),
            add_x <= 0x1000_0000,
            add_y <= 0x1000_0000,
        ensures
            r == (0 <= self.abs_x(add_x as int) < self.plane.cfg.stride
                && 0 <= self.abs_y(add_y as int) < self.plane.cfg.alloc_height),
    {
        let y: i64 = self.y as i64 + add_y as i64 + self.plane.cfg.yorigin as i64;
        let x: i64 = self.x as i64 + add_x as i64 + self.plane.cfg.xorigin as i64;
        y >= 0 && (y as u64) < self.plane.cfg.alloc_height as u64
            && x >= 0 && (x as u64) < self.plane.cfg.stride as u64
    }

    /// Whether the sample `sub_x` left of and `sub_y` above the cursor does
    /// not underrun the allocation.
    pub fn accessible_neg(&self, sub_x: usize, sub_y: usize) -> (r: bool)
        requires
            self.in_range(),
            self.plane.wf(),
            sub_x <= 0x1000_0000,
            sub_y <= 0x1000_0000,
        ensures
            r == (0 <= self.abs_x(-(sub_x as int)) && 0 <= self.abs_y(-(sub_y as int))),
    {
        let y: i64 = self.y as i64 - sub_y as i64 + self.plane.cfg.yorigin as i64;
        let x: i64 = self.x as i64 - sub_x as i64 + self.plane.cfg.xorigin as i64;
        y >= 0 && x >= 0
    }

    /// The sample `add_x` right of and `add_y` below the cursor.
    pub fn p(&self, add_x: usize, add_y: usize) -> (v: u16)
        requires
            self.in_range(),
            self.plane.wf(),
            add_x <= 0x1000_0000,
            add_y <= 0x1000_0000,
            0 <= self.abs_x(add_x as int) < self.plane.cfg.stride,
            0 <= self.abs_y(add_y as int) < self.plane.cfg.alloc_height,
        ensures
            v == self.plane.sample(self.abs_x(add_x as int), self.abs_y(add_y as int)),
    {
        let new_y: i64 = self.y as i64 + add_y as i64 + self.plane.cfg.yorigin as i64;
        let new_x: i64 = self.x as i64 + add_x as i64 + self.plane.cfg.xorigin as i64;
        self.plane.get(new_x as usize, new_y as usize)
    }

    /// The row `y` below the cursor, cropped at the right visible edge.
    pub fn row_cropped(&self, y: usize) -> (r: &[u16])
        requires
            self.in_range(),
            self.plane.wf(),
            y <= 0x1000_0000,
            0 <= self.abs_y(y as int) < self.plane.cfg.alloc_height,
            0 <= self.abs_x(0) <= self.plane.cfg.xorigin + self.plane.cfg.width,
            self.abs_x(0) < self.plane.cfg.stride,
        ensures
            r@.len() == self.plane.cfg.width - self.x,
            forall |i: int| 0 <= i < r@.len()
                ==> r@[i] == self.plane.sample(self.abs_x(i), self.abs_y(y as int)),
    {
        let y_idx: usize = (self.y as i64 + y as i64 + self.plane.cfg.yorigin as i64) as usize;
        let x_idx: usize = (self.x as i64 + self.plane.cfg.xorigin as i64) as usize;
        let start = self.plane.didx(x_idx, y_idx);
        let width: usize = ((self.plane.cfg.width as i64 + self.plane.cfg.xorigin as i64
            - x_idx as i64)) as usize;
        proof {
            lemma_gidx_bounds(self.plane.cfg.stride as int, self.plane.cfg.alloc_height as int,
                x_idx as int + width - 1, y_idx as int);
            assert forall |i: int| 0 <= i < width
                implies self.plane.data@.subrange(start as int, (start + width) as int)[i]
                    == self.plane.sample(self.abs_x(i), self.abs_y(y as int)) by {
                assert(gidx(self.plane.cfg.stride as int, x_idx + i, y_idx as int) == start + i);
            }
        }
        vstd::slice::slice_subrange(self.plane.data.as_slice(), start, start + width)
    }

    /// The row `y` below the cursor, running to the end of the allocated row.
    pub fn row(&self, y: usize) -> (r: &[u16])
        requires
            self.in_range(),
            self.plane.wf(),
            y <= 0x1000_0000,
            0 <= self.abs_y(y as int) < self.plane.cfg.alloc_height,
            0 <= self.abs_x(0) < self.plane.cfg.stride,
        ensures
            r@.len() == self.plane.cfg.stride - self.abs_x(0),
            forall |i: int| 0 <= i < r@.len()
                ==> r@[i] == self.plane.sample(self.abs_x(i), self.abs_y(y as int)),
    {
        let y_idx: usize = (self.y as i64 + y as i64 + self.plane.cfg.yorigin as i64) as usize;
        let x_idx: usize = (self.x as i64 + self.plane.cfg.xorigin as i64) as usize;
        let start = self.plane.didx(x_idx, y_idx);
        let width: usize = self.plane.cfg.stride - x_idx;
        proof {
            lemma_gidx_bounds(self.plane.cfg.stride as int, self.plane.cfg.alloc_height as int,
                x_idx as int + width - 1, y_idx as int);
            assert forall |i: int| 0 <= i < width
                implies self.plane.data@.subrange(start as int, (start + width) as int)[i]
                    == self.plane.sample(self.abs_x(i), self.abs_y(y as int)) by {
                assert(gidx(self.plane.cfg.stride as int, x_idx + i, y_idx as int) == start + i);
            }
        }
        vstd::slice::slice_subrange(self.plane.data.as_slice(), start, start + width)
    }
}

/// A rectangle relative to a plane's visible origin; the position may be
/// negative, reaching into the margin.
#[derive(Debug, Clone, Copy, PartialEq, Eq, Structural)]
pub struct Rect {
    pub x: isize,
    pub y: isize,
    pub width: usize,
    pub height: usize,
}

/// How callers describe the rectangle of a region: either in full, or by its
/// top-left corner with the extent running to the visible edge.
#[derive(Debug, Clone, Copy, PartialEq, Eq, Structural)]
pub enum Area {
    Rect { x: isize, y: isize, width: usize, height: usize },
    StartingAt { x: isize, y: isize },
}

impl Area {
    /// The rectangle this area describes inside a parent of the given size.
    pub open spec fn spec_to_rect(self, parent_width: int, parent_height: int) -> Rect {
        match self {
            Area::Rect { x, y, width, height } => Rect { x, y, width, height },
            Area::StartingAt { x, y } => Rect {
                x,
                y,
                width: (parent_width - x) as usize,
                height: (parent_height - y) as usize,
            },
        }
    }

    /// Resolve the area against a parent extent.
    pub fn to_rect(&self, parent_width: usize, parent_height: usize) -> (r: Rect)
        requires
            parent_width <= 0x1000_0000,
            parent_height <= 0x1000_0000,
            match *self {
                Area::Rect { x, y, .. } => true,
                Area::StartingAt { x, y } =>
                    0 <= x <= parent_width && 0 <= y <= parent_height,
            },
        ensures
            r == self.spec_to_rect(parent_width as int, parent_height as int),
    {
        match *self {
            Area::Rect { x, y, width, height } => Rect { x, y, width, height },
            Area::StartingAt { x, y } => Rect {
                x,
                y,
                width: (parent_width as isize - x) as usize,
                height: (parent_height as isize - y) as usize,
            },
        }
    }
}

/// A read-only view of a rectangle of a plane. A region with a zero-sized
/// rectangle stands for an absent channel.
pub struct PlaneRegion<'a> {
    pub plane: &'a Plane,
    pub rect: Rect,
}

impl<'a> PlaneRegion<'a> {
    /// The rectangle lies within the plane's allocation.
    pub open spec fn wf(&self) -> bool {
        &&& self.plane.wf()
        &&& 0 <= self.plane.cfg.xorigin + self.rect.x
        &&& self.plane.cfg.xorigin + self.rect.x + self.rect.width <= self.plane.cfg.stride
        &&& 0 <= self.plane.cfg.yorigin + self.rect.y
        &&& self.plane.cfg.yorigin + self.rect.y + self.rect.height <= self.plane.cfg.alloc_height
    }

    /// The absolute grid column of region column `i`.
    pub open spec fn abs_x(&self, i: int) -> int {
        self.plane.cfg.xorigin + self.rect.x + i
    }

    /// The absolute grid row of region row `j`.
    pub open spec fn abs_y(&self, j: int) -> int {
        self.plane.cfg.yorigin + self.rect.y + j
    }

    /// The sample at region coordinate (`i`, `j`).
    pub open spec fn s(&self, i: int, j: int) -> u16 {
        self.plane.sample(self.abs_x(i), self.abs_y(j))
    }

    pub fn new(plane: &'a Plane, rect: Rect) -> (r: PlaneRegion<'a>)
        ensures
            r.plane == plane && r.rect == rect,
    {
        PlaneRegion { plane, rect }
    }

    /// A view of the whole visible region.
    pub fn new_from_plane(plane: &'a Plane) -> (r: PlaneRegion<'a>)
        requires
            plane.wf(),
        ensures
            r.plane == plane,
            r.rect == (Rect { x: 0, y: 0, width: plane.cfg.width, height: plane.cfg.height }),
            r.wf(),
    {
        PlaneRegion {
            plane,
            rect: Rect { x: 0, y: 0, width: plane.cfg.width, height: plane.cfg.height },
        }
    }

    /// A zero-sized view standing for an absent channel.
    pub fn empty(plane: &'a Plane) -> (r: PlaneRegion<'a>)
        requires
            plane.wf(),
        ensures
            r.plane == plane,
            r.rect == (Rect { x: 0, y: 0, width: 0, height: 0 }),
            r.spec_is_null(),
            r.wf(),
    {
        PlaneRegion { plane, rect: Rect { x: 0, y: 0, width: 0, height: 0 } }
    }

    /// Whether this region stands for an absent channel.
    pub open spec fn spec_is_null(&self) -> bool {
        self.rect.width == 0 || self.rect.height == 0
    }

    pub fn is_null(&self) -> (r: bool)
        ensures
            r == self.spec_is_null(),
    {
        self.rect.width == 0 || self.rect.height == 0
    }

    /// The rectangle of this region.
    pub fn rect(&self) -> (r: Rect)
        ensures
            r == self.rect,
    {
        self.rect
    }

    /// Read the sample at region coordinate (`i`, `j`).
    pub fn get(&self, i: usize, j: usize) -> (v: u16)
        requires
            self.wf(),
            i < self.rect.width,
            j < self.rect.height,
        ensures
            v == self.s(i as int, j as int),
    {
        let x: usize = ((self.plane.cfg.xorigin as i64 + self.rect.x as i64) + i as i64) as usize;
        let y: usize = ((self.plane.cfg.yorigin as i64 + self.rect.y as i64) + j as i64) as usize;
        self.plane.get(x, y)
    }

    /// A view of a sub-rectangle of this region.
    pub fn subregion(&self, area: Area) -> (r: PlaneRegion<'a>)
        requires
            self.wf(),
            area.spec_to_rect(self.rect.width as int, self.rect.height as int).width
                <= self.rect.width,
            area.spec_to_rect(self.rect.width as int, self.rect.height as int).height
                <= self.rect.height,
            0 <= self.rect.x + area.spec_to_rect(self.rect.width as int, self.rect.height as int).x,
            0 <= self.rect.y + area.spec_to_rect(self.rect.width as int, self.rect.height as int).y,
            self.rect.x + area.spec_to_rect(self.rect.width as int, self.rect.height as int).x
                + area.spec_to_rect(self.rect.width as int, self.rect.height as int).width
                <= self.rect.x + self.rect.width,
            self.rect.y + area.spec_to_rect(self.rect.width as int, self.rect.height as int).y
                + area.spec_to_rect(self.rect.width as int, self.rect.height as int).height
                <= self.rect.y + self.rect.height,
            match area {
                Area::StartingAt { x, y } => 0 <= x <= self.rect.width && 0 <= y <= self.rect.height,
                _ => true,
            },
            self.rect.width <= 0x1000_0000,
            self.rect.height <= 0x1000_0000,
            -0x1000_0000 <= self.rect.x <= 0x1000_0000,
            -0x1000_0000 <= self.rect.y <= 0x1000_0000,
        ensures
            r.plane == self.plane,
            r.wf(),
            r.rect.x == self.rect.x
                + area.spec_to_rect(self.rect.width as int, self.rect.height as int).x,
            r.rect.y == self.rect.y
                + area.spec_to_rect(self.rect.width as int, self.rect.height as int).y,
            r.rect.width
                == area.spec_to_rect(self.rect.width as int, self.rect.height as int).width,
            r.rect.height
                == area.spec_to_rect(self.rect.width as int, self.rect.height as int).height,
    {
        let rect = area.to_rect(self.rect.width, self.rect.height);
        PlaneRegion {
            plane: self.plane,
            rect: Rect {
                x: self.rect.x + rect.x,
                y: self.rect.y + rect.y,
                width: rect.width,
                height: rect.height,
            },
        }
    }
}

/// Constructing regions over a plane.
pub trait AsRegion: Sized {
    /// When an area resolves to a rectangle within the allocation.
    spec fn region_ok(&self, area: Area) -> bool;

    /// The region an area resolves to.
    spec fn spec_region<'a>(&'a self, area: Area) -> PlaneRegion<'a>;

    /// The region of the whole visible rectangle.
    spec fn spec_as_region<'a>(&'a self) -> PlaneRegion<'a>;

    /// When the whole visible region may be viewed.
    spec fn as_region_ok(&self) -> bool;

    /// A view of the rectangle `area` describes, relative to the visible
    /// origin.
    fn region<'a>(&'a self, area: Area) -> (r: PlaneRegion<'a>)
        requires
            self.region_ok(area),
        ensures
            r == self.spec_region(area),
            r.wf(),
    ;

    /// A view of the whole visible region.
    fn as_region<'a>(&'a self) -> (r: PlaneRegion<'a>)
        requires
            self.as_region_ok(),
        ensures
            r == self.spec_as_region(),
            r.wf(),
    ;
}

impl AsRegion for Plane {
    open spec fn region_ok(&self, area: Area) -> bool {
        let rect = area.spec_to_rect(
            self.cfg.stride - self.cfg.xorigin as int,
            self.cfg.alloc_height - self.cfg.yorigin as int,
        );
        &&& self.wf()
        &&& 0 <= self.cfg.xorigin + rect.x
        &&& self.cfg.xorigin + rect.x + rect.width <= self.cfg.stride
        &&& 0 <= self.cfg.yorigin + rect.y
        &&& self.cfg.yorigin + rect.y + rect.height <= self.cfg.alloc_height
        &&& match area {
            Area::StartingAt { x, y } =>
                0 <= x <= self.cfg.stride - self.cfg.xorigin
                    && 0 <= y <= self.cfg.alloc_height - self.cfg.yorigin,
            _ => true,
        }
    }

    open spec fn spec_region<'a>(&'a self, area: Area) -> PlaneRegion<'a> {
        PlaneRegion {
            plane: self,
            rect: area.spec_to_rect(
                self.cfg.stride - self.cfg.xorigin as int,
                self.cfg.alloc_height - self.cfg.yorigin as int,
            ),
        }
    }

    open spec fn spec_as_region<'a>(&'a self) -> PlaneRegion<'a> {
        PlaneRegion {
            plane: self,
            rect: Rect { x: 0, y: 0, width: self.cfg.width, height: self.cfg.height },
        }
    }

    open spec fn as_region_ok(&self) -> bool {
        self.wf()
    }

    fn region<'a>(&'a self, area: Area) -> (r: PlaneRegion<'a>) {
        let rect = area.to_rect(
            self.cfg.stride - self.cfg.xorigin,
            self.cfg.alloc_height - self.cfg.yorigin,
        );
        PlaneRegion::new(self, rect)
    }

    fn as_region<'a>(&'a self) -> (r: PlaneRegion<'a>)
    {
        PlaneRegion::new_from_plane(self)
    }
}

/// A mutable view of a rectangle of a plane. Because it holds the one live
/// mutable borrow of its plane, two such views can never overlap in their
/// writable extent: disjoint mutation is enforced by construction.
pub struct PlaneRegionMut<'a> {
    pub plane: &'a mut Plane,
    pub rect: Rect,
}

impl<'a> PlaneRegionMut<'a> {
    /// The rectangle lies within the plane's allocation.
    pub open spec fn wf(&self) -> bool {
        &&& self.plane.wf()
        &&& 0 <= self.plane.cfg.xorigin + self.rect.x
        &&& self.plane.cfg.xorigin + self.rect.x + self.rect.width <= self.plane.cfg.stride
        &&& 0 <= self.plane.cfg.yorigin + self.rect.y
        &&& self.plane.cfg.yorigin + self.rect.y + self.rect.height <= self.plane.cfg.alloc_height
    }

    /// The absolute grid column of region column `i`.
    pub open spec fn abs_x(&self, i: int) -> int {
        self.plane.cfg.xorigin + self.rect.x + i
    }

    /// The absolute grid row of region row `j`.
    pub open spec fn abs_y(&self, j: int) -> int {
        self.plane.cfg.yorigin + self.rect.y + j
    }

    /// The sample at region coordinate (`i`, `j`).
    pub open spec fn s(&self, i: int, j: int) -> u16 {
        self.plane.sample(self.abs_x(i), self.abs_y(j))
    }

    pub fn new(plane: &'a mut Plane, rect: Rect) -> (r: PlaneRegionMut<'a>)
        ensures
            *r.plane == *old(plane),
            r.rect == rect,
            *final(plane) == *final(r.plane),
    {
        PlaneRegionMut { plane, rect }
    }

    /// Read the sample at region coordinate (`i`, `j`).
    pub fn get(&self, i: usize, j: usize) -> (v: u16)
        requires
            self.wf(),
            i < self.rect.width,
            j < self.rect.height,
        ensures
            v == self.s(i as int, j as int),
    {
        let x: usize = ((self.plane.cfg.xorigin as i64 + self.rect.x as i64) + i as i64) as usize;
        let y: usize = ((self.plane.cfg.yorigin as i64 + self.rect.y as i64) + j as i64) as usize;
        self.plane.get(x, y)
    }

    /// Write the sample at region coordinate (`i`, `j`); every other sample
    /// of the plane keeps its value.
    pub fn put(&mut self, i: usize, j: usize, v: u16)
        requires
            old(self).wf(),
            i < old(self).rect.width,
            j < old(self).rect.height,
        ensures
            final(self).wf(),
            final(self).rect == old(self).rect,
            final(self).plane.cfg == old(self).plane.cfg,
            final(self).plane.data@.len() == old(self).plane.data@.len(),
            final(self).s(i as int, j as int) == v,
            forall |x: int, y: int|
                0 <= x < old(self).plane.cfg.stride && 0 <= y < old(self).plane.cfg.alloc_height
                    && !(x == old(self).abs_x(i as int) && y == old(self).abs_y(j as int))
                    ==> #[trigger] final(self).plane.sample(x, y) == old(self).plane.sample(x, y),
    {
        let x: usize = ((self.plane.cfg.xorigin as i64 + self.rect.x as i64) + i as i64) as usize;
        let y: usize = ((self.plane.cfg.yorigin as i64 + self.rect.y as i64) + j as i64) as usize;
        self.plane.put(x, y, v);
    }

    /// A read-only view of the same rectangle.
    pub fn as_const<'b>(&'b mut self) -> (r: PlaneRegion<'b>)
        ensures
            *r.plane == *old(self).plane,
            r.rect == old(self).rect,
            *final(self).plane == *old(self).plane,
            final(self).rect == old(self).rect,
    {
        PlaneRegion { plane: &*self.plane, rect: self.rect }
    }
}

} // verus!
