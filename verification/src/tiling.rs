//! Windowed views: rectangles relative to a plane's visible origin, read-only
//! regions over them, and the tile rectangle with its coordinate conversions
//! between tile-local and frame offsets.

use vstd::prelude::*;
use vstd::arithmetic::power2::pow2;
use crate::plane::{Plane, PlaneOffset, PlaneRegion, Rect};

verus! {

/// Log2 of the mode-info unit size in samples.
pub const MI_SIZE_LOG2: usize = 2;

/// The mode-info unit size in samples.
pub const MI_SIZE: usize = 4;

/// A block position in mode-info units, relative to a tile.
#[derive(Debug, Clone, Copy, PartialEq, Eq, Structural)]
pub struct BlockOffset {
    pub x: usize,
    pub y: usize,
}

/// A block position in mode-info units, relative to a tile.
#[derive(Debug, Clone, Copy, PartialEq, Eq, Structural)]
pub struct TileBlockOffset(pub BlockOffset);

/// A block position in mode-info units, relative to the frame.
#[derive(Debug, Clone, Copy, PartialEq, Eq, Structural)]
pub struct PlaneBlockOffset(pub BlockOffset);

/// A superblock position, relative to a tile.
#[derive(Debug, Clone, Copy, PartialEq, Eq, Structural)]
pub struct SuperBlockOffset {
    pub x: usize,
    pub y: usize,
}

/// A superblock position, relative to a tile.
#[derive(Debug, Clone, Copy, PartialEq, Eq, Structural)]
pub struct TileSuperBlockOffset(pub SuperBlockOffset);

/// A superblock position, relative to the frame.
#[derive(Debug, Clone, Copy, PartialEq, Eq, Structural)]
pub struct PlaneSuperBlockOffset(pub SuperBlockOffset);

/// Rectangle of a tile, in samples relative to the frame, with unsigned
/// coordinates.
#[derive(Debug, Clone, Copy, PartialEq, Eq, Structural)]
pub struct TileRect {
    pub x: usize,
    pub y: usize,
    pub width: usize,
    pub height: usize,
}

impl TileRect {
    /// The same rectangle in a chroma plane decimated by (`xdec`, `ydec`).
    pub fn decimated(&self, xdec: usize, ydec: usize) -> (r: TileRect)
        requires
            xdec <= 1,
            ydec <= 1,
        ensures
            r.x == self.x as int / pow2(xdec as nat) as int,
            r.y == self.y as int / pow2(ydec as nat) as int,
            r.width == self.width as int / pow2(xdec as nat) as int,
            r.height == self.height as int / pow2(ydec as nat) as int,
    {
        proof {
            vstd::arithmetic::power2::lemma2_to64();
        }
        let xd: usize = if xdec == 0 { 1 } else { 2 };
        let yd: usize = if ydec == 0 { 1 } else { 2 };
        TileRect {
            x: self.x / xd,
            y: self.y / yd,
            width: self.width / xd,
            height: self.height / yd,
        }
    }

    /// Translate a tile-relative plane offset into a frame-relative one.
    pub fn to_frame_plane_offset(&self, tile_po: PlaneOffset) -> (r: PlaneOffset)
        requires
            self.x <= 0x1000_0000,
            self.y <= 0x1000_0000,
            -0x1000_0000 <= tile_po.x <= 0x1000_0000,
            -0x1000_0000 <= tile_po.y <= 0x1000_0000,
        ensures
            r.x as int == self.x + tile_po.x,
            r.y as int == self.y + tile_po.y,
    {
        PlaneOffset { x: self.x as isize + tile_po.x, y: self.y as isize + tile_po.y }
    }

    /// Translate a tile-relative block offset into a frame-relative one for a
    /// plane decimated by (`xdec`, `ydec`).
    pub fn to_frame_block_offset(
        &self,
        tile_bo: TileBlockOffset,
        xdec: usize,
        ydec: usize,
    ) -> (r: PlaneBlockOffset)
        requires
            xdec <= 1,
            ydec <= 1,
            (self.x as int) % (MI_SIZE as int / pow2(xdec as nat) as int) == 0,
            (self.y as int) % (MI_SIZE as int / pow2(ydec as nat) as int) == 0,
            self.x <= 0x1000_0000,
            self.y <= 0x1000_0000,
            tile_bo.0.x <= 0x1000_0000,
            tile_bo.0.y <= 0x1000_0000,
        ensures
            r.0.x == self.x as int / pow2((MI_SIZE_LOG2 - xdec) as nat) as int + tile_bo.0.x,
            r.0.y == self.y as int / pow2((MI_SIZE_LOG2 - ydec) as nat) as int + tile_bo.0.y,
    {
        proof {
            vstd::arithmetic::power2::lemma2_to64();
            vstd::bits::lemma_usize_shr_is_div(self.x, (MI_SIZE_LOG2 - xdec) as usize);
            vstd::bits::lemma_usize_shr_is_div(self.y, (MI_SIZE_LOG2 - ydec) as usize);
        }
        let bx: usize = self.x >> (MI_SIZE_LOG2 - xdec);
        let by: usize = self.y >> (MI_SIZE_LOG2 - ydec);
        PlaneBlockOffset(BlockOffset { x: bx + tile_bo.0.x, y: by + tile_bo.0.y })
    }

    /// Translate a tile-relative superblock offset into a frame-relative one
    /// for a plane decimated by (`xdec`, `ydec`).
    pub fn to_frame_super_block_offset(
        &self,
        tile_sbo: TileSuperBlockOffset,
        sb_size_log2: usize,
        xdec: usize,
        ydec: usize,
    ) -> (r: PlaneSuperBlockOffset)
        requires
            xdec <= 1,
            ydec <= 1,
            sb_size_log2 == 6 || sb_size_log2 == 7,
            (self.x as int) % (pow2((sb_size_log2 - xdec) as nat) as int) == 0,
            (self.y as int) % (pow2((sb_size_log2 - ydec) as nat) as int) == 0,
            self.x <= 0x1000_0000,
            self.y <= 0x1000_0000,
            tile_sbo.0.x <= 0x1000_0000,
            tile_sbo.0.y <= 0x1000_0000,
        ensures
            r.0.x == self.x as int / pow2((sb_size_log2 - xdec) as nat) as int + tile_sbo.0.x,
            r.0.y == self.y as int / pow2((sb_size_log2 - ydec) as nat) as int + tile_sbo.0.y,
    {
        proof {
            vstd::bits::lemma_usize_shr_is_div(self.x, (sb_size_log2 - xdec) as usize);
            vstd::bits::lemma_usize_shr_is_div(self.y, (sb_size_log2 - ydec) as usize);
            vstd::arithmetic::power2::lemma_pow2_pos((sb_size_log2 - xdec) as nat);
            vstd::arithmetic::power2::lemma_pow2_pos((sb_size_log2 - ydec) as nat);
            assert(self.x as int / (pow2((sb_size_log2 - xdec) as nat) as int) <= self.x as int)
                by (nonlinear_arith)
                requires self.x >= 0 && pow2((sb_size_log2 - xdec) as nat) >= 1;
            assert(self.y as int / (pow2((sb_size_log2 - ydec) as nat) as int) <= self.y as int)
                by (nonlinear_arith)
                requires self.y >= 0 && pow2((sb_size_log2 - ydec) as nat) >= 1;
        }
        let sbx: usize = self.x >> (sb_size_log2 - xdec);
        let sby: usize = self.y >> (sb_size_log2 - ydec);
        PlaneSuperBlockOffset(SuperBlockOffset { x: sbx + tile_sbo.0.x, y: sby + tile_sbo.0.y })
    }
}

impl From<TileRect> for Rect {
    /// The same rectangle with signed coordinates.
    fn from(tile_rect: TileRect) -> (r: Rect)
        ensures
            r == (Rect {
                x: tile_rect.x as isize,
                y: tile_rect.y as isize,
                width: tile_rect.width,
                height: tile_rect.height,
            }),
    {
        Rect {
            x: tile_rect.x as isize,
            y: tile_rect.y as isize,
            width: tile_rect.width,
            height: tile_rect.height,
        }
    }
}

impl vstd::std_specs::convert::FromSpecImpl<TileRect> for Rect {
    open spec fn obeys_from_spec() -> bool {
        true
    }

    open spec fn from_spec(tile_rect: TileRect) -> Rect {
        Rect {
            x: tile_rect.x as isize,
            y: tile_rect.y as isize,
            width: tile_rect.width,
            height: tile_rect.height,
        }
    }
}

} // verus!
