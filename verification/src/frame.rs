//! Frames: up to three co-located padded planes (luma and two chroma
//! channels, the chroma pair decimated by the subsampling mode), padded
//! together and windowed into tiles.

use vstd::prelude::*;
use vstd::arithmetic::power2::pow2;
use crate::plane::{Plane, PlanePad, PlaneRegion, PlaneRegionMut, Rect};
use crate::tiling::TileRect;

verus! {

/// Chroma subsampling mode of a frame.
#[derive(Debug, Clone, Copy, PartialEq, Eq, Structural)]
pub enum ChromaSampling {
    Cs420,
    Cs422,
    Cs444,
    Monochrome,
}

impl ChromaSampling {
    /// Horizontal and vertical chroma decimation, or none for monochrome.
    pub open spec fn spec_decimation(self) -> Option<(usize, usize)> {
        match self {
            ChromaSampling::Cs420 => Some((1usize, 1usize)),
            ChromaSampling::Cs422 => Some((1usize, 0usize)),
            ChromaSampling::Cs444 => Some((0usize, 0usize)),
            ChromaSampling::Monochrome => None,
        }
    }

    pub fn decimation(self) -> (r: Option<(usize, usize)>)
        ensures
            r == self.spec_decimation(),
    {
        match self {
            ChromaSampling::Cs420 => Some((1, 1)),
            ChromaSampling::Cs422 => Some((1, 0)),
            ChromaSampling::Cs444 => Some((0, 0)),
            ChromaSampling::Monochrome => None,
        }
    }

    /// The dimensions of a chroma plane for a `w` × `h` frame, rounding up.
    pub fn chroma_dimensions(self, w: usize, h: usize) -> (r: Option<(usize, usize)>)
        requires
            w < 0x1000_0000,
            h < 0x1000_0000,
        ensures
            match self.spec_decimation() {
                Some(d) => r == Some((((w + d.0) as int / (d.0 + 1) as int) as usize,
                    ((h + d.1) as int / (d.1 + 1) as int) as usize)),
                None => r is None,
            },
    {
        match self.decimation() {
            Some((xd, yd)) => Some(((w + xd) / (xd + 1), (h + yd) / (yd + 1))),
            None => None,
        }
    }
}

/// Force a particular frame type on an input frame.
#[derive(Debug, Clone, Copy, PartialEq, Eq, Structural)]
pub enum FrameTypeOverride {
    /// Do not force any decision.
    No,
    /// Force the frame to be a keyframe.
    Key,
}

impl Default for FrameTypeOverride {
    /// The default forces nothing.
    fn default() -> (r: FrameTypeOverride)
        ensures
            r == FrameTypeOverride::No,
    {
        FrameTypeOverride::No
    }
}

/// Optional per-frame encoder parameters.
#[derive(Debug, Clone, Copy, PartialEq, Eq, Structural)]
pub struct FrameParameters {
    /// Force the emitted frame to be of the selected type.
    pub frame_type_override: FrameTypeOverride,
}

/// A padded frame: a luma plane and, unless monochrome, two chroma planes.
pub struct Frame {
    pub y_plane: Plane,
    pub u_plane: Option<Plane>,
    pub v_plane: Option<Plane>,
    pub subsampling: ChromaSampling,
    pub bit_depth: usize,
}

impl Frame {
    /// All present planes are well formed, and the chroma pair is present
    /// exactly when the frame is not monochrome.
    pub open spec fn wf(self) -> bool {
        &&& self.y_plane.wf()
        &&& (self.subsampling is Monochrome <==> self.u_plane is None)
        &&& (self.subsampling is Monochrome <==> self.v_plane is None)
        &&& (self.u_plane is Some ==> self.u_plane->0.wf()
            && self.u_plane->0.cfg.xdec <= 1 && self.u_plane->0.cfg.ydec <= 1)
        &&& (self.v_plane is Some ==> self.v_plane->0.wf()
            && self.v_plane->0.cfg.xdec <= 1 && self.v_plane->0.cfg.ydec <= 1)
    }

    /// Allocate a frame with enough padding on every plane for the widest
    /// filter taps.
    pub fn new(width: usize, height: usize, chroma_sampling: ChromaSampling) -> (r: Frame)
        requires
            1 <= width <= 0x2000,
            1 <= height <= 0x2000,
        ensures
            r.wf(),
            r.subsampling == chroma_sampling,
            r.y_plane.cfg.width == width,
            r.y_plane.cfg.height == height,
    {
        let y_plane = Plane::new(width, height, 0, 0, 88, 88);
        let (u_plane, v_plane) = match chroma_sampling.decimation() {
            Some((xd, yd)) => {
                proof {
                    assert(xd <= 1 && yd <= 1);
                }
                let cw = if xd == 0 { width } else { (width + 1) / 2 };
                let ch = if yd == 0 { height } else { (height + 1) / 2 };
                (
                    Some(Plane::new(cw, ch, xd, yd, 88, 88)),
                    Some(Plane::new(cw, ch, xd, yd, 88, 88)),
                )
            },
            None => (None, None),
        };
        Frame {
            y_plane,
            u_plane,
            v_plane,
            subsampling: chroma_sampling,
            bit_depth: 8,
        }
    }

    /// Re-stripe the replicated padding of every plane after the visible
    /// region `[0, w) × [0, h)` changed, the chroma planes at their
    /// decimated sizes.
    pub fn pad(&mut self, w: usize, h: usize)
        requires
            old(self).wf(),
            1 <= w <= old(self).y_plane.cfg.width,
            1 <= h <= old(self).y_plane.cfg.height,
            w < 0x1000_0000 && h < 0x1000_0000,
            old(self).u_plane is Some ==> (
                1 <= (w + old(self).u_plane->0.cfg.xdec) as int / (old(self).u_plane->0.cfg.xdec + 1) as int
                    <= old(self).u_plane->0.cfg.width
                && 1 <= (h + old(self).u_plane->0.cfg.ydec) as int / (old(self).u_plane->0.cfg.ydec + 1) as int
                    <= old(self).u_plane->0.cfg.height),
            old(self).v_plane is Some ==> (
                1 <= (w + old(self).v_plane->0.cfg.xdec) as int / (old(self).v_plane->0.cfg.xdec + 1) as int
                    <= old(self).v_plane->0.cfg.width
                && 1 <= (h + old(self).v_plane->0.cfg.ydec) as int / (old(self).v_plane->0.cfg.ydec + 1) as int
                    <= old(self).v_plane->0.cfg.height),
        ensures
            final(self).wf(),
            final(self).subsampling == old(self).subsampling,
            final(self).bit_depth == old(self).bit_depth,
            Plane::pad_rel(old(self).y_plane, final(self).y_plane, w, h),
            final(self).u_plane is Some <==> old(self).u_plane is Some,
            final(self).v_plane is Some <==> old(self).v_plane is Some,
            final(self).u_plane is Some ==> Plane::pad_rel(
                old(self).u_plane->0, final(self).u_plane->0,
                ((w + old(self).u_plane->0.cfg.xdec) as int
                    / (old(self).u_plane->0.cfg.xdec + 1) as int) as usize,
                ((h + old(self).u_plane->0.cfg.ydec) as int
                    / (old(self).u_plane->0.cfg.ydec + 1) as int) as usize),
            final(self).v_plane is Some ==> Plane::pad_rel(
                old(self).v_plane->0, final(self).v_plane->0,
                ((w + old(self).v_plane->0.cfg.xdec) as int
                    / (old(self).v_plane->0.cfg.xdec + 1) as int) as usize,
                ((h + old(self).v_plane->0.cfg.ydec) as int
                    / (old(self).v_plane->0.cfg.ydec + 1) as int) as usize),
    {
        self.y_plane.pad(w, h);
        match &mut self.u_plane {
            Some(up) => {
                let cw = if up.cfg.xdec == 0 { w } else { (w + 1) / 2 };
                let ch = if up.cfg.ydec == 0 { h } else { (h + 1) / 2 };
                proof {
                    assert((w + 0int) / 1int == w);
                    assert((h + 0int) / 1int == h);
                    assert(cw as int == (w + up.cfg.xdec) as int / (up.cfg.xdec + 1) as int);
                    assert(ch as int == (h + up.cfg.ydec) as int / (up.cfg.ydec + 1) as int);
                }
                up.pad(cw, ch);
            },
            None => {},
        }
        match &mut self.v_plane {
            Some(vp) => {
                let cw = if vp.cfg.xdec == 0 { w } else { (w + 1) / 2 };
                let ch = if vp.cfg.ydec == 0 { h } else { (h + 1) / 2 };
                proof {
                    assert((w + 0int) / 1int == w);
                    assert((h + 0int) / 1int == h);
                    assert(cw as int == (w + vp.cfg.xdec) as int / (vp.cfg.xdec + 1) as int);
                    assert(ch as int == (h + vp.cfg.ydec) as int / (vp.cfg.ydec + 1) as int);
                }
                vp.pad(cw, ch);
            },
            None => {},
        }
    }

    /// The plane of one channel: 0 for luma, 1 and 2 for chroma, where
    /// present.
    pub fn plane_ref(&self, i: usize) -> (r: Option<&Plane>)
        requires
            i < 3,
        ensures
            i == 0 ==> r == Some(&self.y_plane),
            i == 1 ==> (r is Some <==> self.u_plane is Some),
            i == 2 ==> (r is Some <==> self.v_plane is Some),
    {
        if i == 0 {
            Some(&self.y_plane)
        } else if i == 1 {
            self.u_plane.as_ref()
        } else {
            self.v_plane.as_ref()
        }
    }

    /// View the whole frame as one tile.
    pub fn as_tile<'a>(&'a self) -> (r: Tile<'a>)
        requires
            self.wf(),
            self.y_plane.cfg.xorigin + self.y_plane.cfg.width <= 0x1000_0000,
            self.y_plane.cfg.yorigin + self.y_plane.cfg.height <= 0x1000_0000,
        ensures
            r.luma.plane == &self.y_plane,
            r.luma.rect.x == 0 && r.luma.rect.y == 0,
            r.luma.rect.width == self.y_plane.cfg.width,
            r.luma.rect.height == self.y_plane.cfg.height,
            self.u_plane is Some ==> *r.chroma0.plane == self.u_plane->0
                && chroma_rect_of(r.chroma0.rect,
                    TileRect { x: 0, y: 0, width: self.y_plane.cfg.width, height: self.y_plane.cfg.height },
                    self.u_plane->0.cfg.xdec as nat, self.u_plane->0.cfg.ydec as nat),
            self.v_plane is Some ==> *r.chroma1.plane == self.v_plane->0
                && chroma_rect_of(r.chroma1.rect,
                    TileRect { x: 0, y: 0, width: self.y_plane.cfg.width, height: self.y_plane.cfg.height },
                    self.v_plane->0.cfg.xdec as nat, self.v_plane->0.cfg.ydec as nat),
            self.u_plane is None ==> r.chroma0.spec_is_null(),
            self.v_plane is None ==> r.chroma1.spec_is_null(),
    {
        let width = self.y_plane.cfg.width;
        let height = self.y_plane.cfg.height;
        Tile::new(self, TileRect { x: 0, y: 0, width, height })
    }
}

/// A region rectangle equals the luma tile rectangle decimated by
/// (`xdec`, `ydec`).
pub open spec fn chroma_rect_of(rect: Rect, luma_rect: TileRect, xdec: nat, ydec: nat) -> bool {
    &&& rect.x == luma_rect.x as int / pow2(xdec) as int
    &&& rect.y == luma_rect.y as int / pow2(ydec) as int
    &&& rect.width == luma_rect.width as int / pow2(xdec) as int
    &&& rect.height == luma_rect.height as int / pow2(ydec) as int
}

/// A tiled view of a frame: a luma region and the two co-located chroma
/// regions, the chroma ones empty when the channel is absent.
pub struct Tile<'a> {
    pub luma: PlaneRegion<'a>,
    pub chroma0: PlaneRegion<'a>,
    pub chroma1: PlaneRegion<'a>,
}

impl<'a> Tile<'a> {
    /// View the luma rectangle of a frame, with each chroma region decimated
    /// to its plane.
    pub fn new(frame: &'a Frame, luma_rect: TileRect) -> (r: Tile<'a>)
        requires
            frame.wf(),
            luma_rect.x + luma_rect.width <= 0x1000_0000,
            luma_rect.y + luma_rect.height <= 0x1000_0000,
        ensures
            r.luma.plane == &frame.y_plane,
            r.luma.rect.x == luma_rect.x && r.luma.rect.y == luma_rect.y,
            r.luma.rect.width == luma_rect.width && r.luma.rect.height == luma_rect.height,
            frame.u_plane is Some ==> *r.chroma0.plane == frame.u_plane->0
                && chroma_rect_of(r.chroma0.rect, luma_rect,
                    frame.u_plane->0.cfg.xdec as nat, frame.u_plane->0.cfg.ydec as nat),
            frame.v_plane is Some ==> *r.chroma1.plane == frame.v_plane->0
                && chroma_rect_of(r.chroma1.rect, luma_rect,
                    frame.v_plane->0.cfg.xdec as nat, frame.v_plane->0.cfg.ydec as nat),
            frame.u_plane is None ==> r.chroma0.spec_is_null()
                && r.chroma0.plane == &frame.y_plane,
            frame.v_plane is None ==> r.chroma1.spec_is_null()
                && r.chroma1.plane == &frame.y_plane,
    {
        let luma = PlaneRegion::new(&frame.y_plane, Rect {
            x: luma_rect.x as isize,
            y: luma_rect.y as isize,
            width: luma_rect.width,
            height: luma_rect.height,
        });
        let chroma0 = match frame.u_plane.as_ref() {
            Some(p) => {
                let rect = luma_rect.decimated(p.cfg.xdec, p.cfg.ydec);
                proof {
                    vstd::arithmetic::power2::lemma_pow2_pos(p.cfg.xdec as nat);
                    vstd::arithmetic::power2::lemma_pow2_pos(p.cfg.ydec as nat);
                    vstd::arithmetic::div_mod::lemma_div_nonincreasing(
                        luma_rect.x as int, pow2(p.cfg.xdec as nat) as int);
                    vstd::arithmetic::div_mod::lemma_div_nonincreasing(
                        luma_rect.y as int, pow2(p.cfg.ydec as nat) as int);
                    vstd::arithmetic::div_mod::lemma_div_pos_is_pos(
                        luma_rect.x as int, pow2(p.cfg.xdec as nat) as int);
                    vstd::arithmetic::div_mod::lemma_div_pos_is_pos(
                        luma_rect.y as int, pow2(p.cfg.ydec as nat) as int);
                }
                PlaneRegion::new(p, Rect {
                    x: rect.x as isize,
                    y: rect.y as isize,
                    width: rect.width,
                    height: rect.height,
                })
            },
            None => PlaneRegion::empty(&frame.y_plane),
        };
        let chroma1 = match frame.v_plane.as_ref() {
            Some(p) => {
                let rect = luma_rect.decimated(p.cfg.xdec, p.cfg.ydec);
                proof {
                    vstd::arithmetic::power2::lemma_pow2_pos(p.cfg.xdec as nat);
                    vstd::arithmetic::power2::lemma_pow2_pos(p.cfg.ydec as nat);
                    vstd::arithmetic::div_mod::lemma_div_nonincreasing(
                        luma_rect.x as int, pow2(p.cfg.xdec as nat) as int);
                    vstd::arithmetic::div_mod::lemma_div_nonincreasing(
                        luma_rect.y as int, pow2(p.cfg.ydec as nat) as int);
                    vstd::arithmetic::div_mod::lemma_div_pos_is_pos(
                        luma_rect.x as int, pow2(p.cfg.xdec as nat) as int);
                    vstd::arithmetic::div_mod::lemma_div_pos_is_pos(
                        luma_rect.y as int, pow2(p.cfg.ydec as nat) as int);
                }
                PlaneRegion::new(p, Rect {
                    x: rect.x as isize,
                    y: rect.y as isize,
                    width: rect.width,
                    height: rect.height,
                })
            },
            None => PlaneRegion::empty(&frame.y_plane),
        };
        Tile { luma, chroma0, chroma1 }
    }
}

/// A mutable tiled view of a frame: a writable luma region and, where the
/// channels exist, writable chroma regions. Each region holds the sole
/// mutable borrow of its plane, so concurrently handed-out tiles can never
/// overlap in their writable extent.
pub struct TileMut<'a> {
    pub luma: PlaneRegionMut<'a>,
    pub chroma0: Option<PlaneRegionMut<'a>>,
    pub chroma1: Option<PlaneRegionMut<'a>>,
}

impl<'a> TileMut<'a> {
    /// View the luma rectangle of a frame mutably, with each chroma region
    /// decimated to its plane.
    pub fn new(frame: &'a mut Frame, luma_rect: TileRect) -> (r: TileMut<'a>)
        requires
            old(frame).wf(),
            luma_rect.x + luma_rect.width <= 0x1000_0000,
            luma_rect.y + luma_rect.height <= 0x1000_0000,
        ensures
            *r.luma.plane == old(frame).y_plane,
            r.luma.rect.x == luma_rect.x && r.luma.rect.y == luma_rect.y,
            r.luma.rect.width == luma_rect.width && r.luma.rect.height == luma_rect.height,
            r.chroma0 is Some <==> old(frame).u_plane is Some,
            r.chroma1 is Some <==> old(frame).v_plane is Some,
            r.chroma0 is Some ==> *r.chroma0->0.plane == old(frame).u_plane->0
                && chroma_rect_of(r.chroma0->0.rect, luma_rect,
                    old(frame).u_plane->0.cfg.xdec as nat, old(frame).u_plane->0.cfg.ydec as nat),
            r.chroma1 is Some ==> *r.chroma1->0.plane == old(frame).v_plane->0
                && chroma_rect_of(r.chroma1->0.rect, luma_rect,
                    old(frame).v_plane->0.cfg.xdec as nat, old(frame).v_plane->0.cfg.ydec as nat),
    {
        let luma = PlaneRegionMut::new(&mut frame.y_plane, Rect {
            x: luma_rect.x as isize,
            y: luma_rect.y as isize,
            width: luma_rect.width,
            height: luma_rect.height,
        });
        let chroma0 = match &mut frame.u_plane {
            Some(p) => {
                let rect = luma_rect.decimated(p.cfg.xdec, p.cfg.ydec);
                proof {
                    vstd::arithmetic::power2::lemma_pow2_pos(p.cfg.xdec as nat);
                    vstd::arithmetic::power2::lemma_pow2_pos(p.cfg.ydec as nat);
                    vstd::arithmetic::div_mod::lemma_div_nonincreasing(
                        luma_rect.x as int, pow2(p.cfg.xdec as nat) as int);
                    vstd::arithmetic::div_mod::lemma_div_nonincreasing(
                        luma_rect.y as int, pow2(p.cfg.ydec as nat) as int);
                    vstd::arithmetic::div_mod::lemma_div_pos_is_pos(
                        luma_rect.x as int, pow2(p.cfg.xdec as nat) as int);
                    vstd::arithmetic::div_mod::lemma_div_pos_is_pos(
                        luma_rect.y as int, pow2(p.cfg.ydec as nat) as int);
                }
                Some(PlaneRegionMut::new(p, Rect {
                    x: rect.x as isize,
                    y: rect.y as isize,
                    width: rect.width,
                    height: rect.height,
                }))
            },
            None => None,
        };
        let chroma1 = match &mut frame.v_plane {
            Some(p) => {
                let rect = luma_rect.decimated(p.cfg.xdec, p.cfg.ydec);
                proof {
                    vstd::arithmetic::power2::lemma_pow2_pos(p.cfg.xdec as nat);
                    vstd::arithmetic::power2::lemma_pow2_pos(p.cfg.ydec as nat);
                    vstd::arithmetic::div_mod::lemma_div_nonincreasing(
                        luma_rect.x as int, pow2(p.cfg.xdec as nat) as int);
                    vstd::arithmetic::div_mod::lemma_div_nonincreasing(
                        luma_rect.y as int, pow2(p.cfg.ydec as nat) as int);
                    vstd::arithmetic::div_mod::lemma_div_pos_is_pos(
                        luma_rect.x as int, pow2(p.cfg.xdec as nat) as int);
                    vstd::arithmetic::div_mod::lemma_div_pos_is_pos(
                        luma_rect.y as int, pow2(p.cfg.ydec as nat) as int);
                }
                Some(PlaneRegionMut::new(p, Rect {
                    x: rect.x as isize,
                    y: rect.y as isize,
                    width: rect.width,
                    height: rect.height,
                }))
            },
            None => None,
        };
        TileMut { luma, chroma0, chroma1 }
    }

    /// A read-only view of the same tile; an absent channel becomes an empty
    /// region over the luma plane.
    pub fn as_const<'b>(&'b mut self) -> (r: Tile<'b>)
        requires
            old(self).luma.plane.wf(),
            old(self).chroma0 is Some ==> old(self).chroma0->0.plane.wf(),
            old(self).chroma1 is Some ==> old(self).chroma1->0.plane.wf(),
        ensures
            *r.luma.plane == *old(self).luma.plane,
            r.luma.rect == old(self).luma.rect,
            old(self).chroma0 is Some ==> *r.chroma0.plane == *old(self).chroma0->0.plane
                && r.chroma0.rect == old(self).chroma0->0.rect,
            old(self).chroma1 is Some ==> *r.chroma1.plane == *old(self).chroma1->0.plane
                && r.chroma1.rect == old(self).chroma1->0.rect,
            old(self).chroma0 is None ==> r.chroma0.spec_is_null(),
            old(self).chroma1 is None ==> r.chroma1.spec_is_null(),
    {
        let luma = PlaneRegion::new(&*self.luma.plane, self.luma.rect);
        let chroma0 = match &self.chroma0 {
            Some(c) => PlaneRegion::new(&*c.plane, c.rect),
            None => PlaneRegion::empty(&*self.luma.plane),
        };
        let chroma1 = match &self.chroma1 {
            Some(c) => PlaneRegion::new(&*c.plane, c.rect),
            None => PlaneRegion::empty(&*self.luma.plane),
        };
        Tile { luma, chroma0, chroma1 }
    }
}

/// Enumerating the present planes of a frame, luma first.
pub trait FrameIter {
    /// When the planes may be enumerated.
    spec fn planes_ok(&self) -> bool;

    /// The present planes in channel order: luma, then the chroma pair when
    /// the frame is not monochrome.
    fn planes<'a>(&'a self) -> (r: Vec<&'a Plane>)
        requires
            self.planes_ok(),
    ;
}

impl FrameIter for Frame {
    open spec fn planes_ok(&self) -> bool {
        self.wf()
    }

    fn planes<'a>(&'a self) -> (r: Vec<&'a Plane>)
        ensures
            *r@[0] == self.y_plane,
            self.u_plane is None ==> r@.len() == 1,
            self.u_plane is Some ==> r@.len() == 3
                && *r@[1] == self.u_plane->0
                && *r@[2] == self.v_plane->0,
    {
        let mut r: Vec<&'a Plane> = Vec::new();
        r.push(&self.y_plane);
        match &self.u_plane {
            Some(u) => {
                r.push(u);
            },
            None => {},
        }
        match &self.v_plane {
            Some(v) => {
                r.push(v);
            },
            None => {},
        }
        r
    }
}

} // verus!
