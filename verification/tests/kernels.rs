use pixel_core::cdef::{cdef_filter_block, cdef_find_dir, CDEF_HAVE_ALL};
use pixel_core::dist::{cdef_dist_kernel_stats, get_sad, get_satd, get_weighted_sse};
use pixel_core::frame::{ChromaSampling, Frame, FrameIter, FrameTypeOverride, Tile, TileMut};
use pixel_core::mc::{get_filter, mc_avg, prep_8tap, put_8tap, FilterMode};
use pixel_core::pixel::{CastFromPrimitive, Coefficient, Pixel, PixelType};
use pixel_core::lrf::{sgrproj_box_ab_r1, sgrproj_box_ab_r2, sgrproj_box_f_r0, sgrproj_box_f_r1, sgrproj_box_f_r2};
use pixel_core::plane::{Plane, PlanePad, PlaneRegion, PlaneRegionMut, PlaneSlice, Rect};
use pixel_core::tiling::{BlockOffset, TileBlockOffset, TileRect};
use pixel_core::transform::{inverse_transform_add, get_1d_tx_types, TxSize, TxType, TxType1D};
use pixel_core::util::{clamp, msb, round_shift, Fixed, ILog};
use pixel_core::plane::PlaneOffset;

fn plane_filled(w: usize, h: usize, pad: usize, v: u16) -> Plane {
    let mut p = Plane::new(w, h, 0, 0, pad, pad);
    for y in 0..p.cfg.alloc_height {
        for x in 0..p.cfg.stride {
            p.put(x, y, v);
        }
    }
    p
}

#[test]
fn round_shift_matches_fixed_point_rounding() {
    assert_eq!(round_shift(5, 1), 3);
    assert_eq!(round_shift(-3, 1), -1);
    assert_eq!(round_shift(256 * 5793, 12), 362);
    assert_eq!(round_shift(7, 0), 7);
}

#[test]
fn clamp_orders_bounds() {
    assert_eq!(clamp(300, 0, 255), 255);
    assert_eq!(clamp(-4, 0, 255), 0);
    assert_eq!(clamp(77, 0, 255), 77);
}

#[test]
fn msb_is_floor_log2() {
    assert_eq!(msb(1), 0);
    assert_eq!(msb(2), 1);
    assert_eq!(msb(255), 7);
    assert_eq!(msb(256), 8);
}

#[test]
fn fixed_alignment() {
    assert_eq!(13usize.align_power_of_two(2), 16);
    assert_eq!(13usize.floor_log2(2), 12);
    assert_eq!(13usize.align_power_of_two_and_shift(2), 4);
    assert_eq!(ILog::ilog(0usize), 0);
    assert_eq!(ILog::ilog(8usize), 4);
    assert_eq!(ILog::ilog(-5i16), 16);
}

#[test]
fn casts_truncate() {
    assert_eq!(<u8 as CastFromPrimitive<i32>>::cast_from(300), 44u8);
    assert_eq!(<i16 as CastFromPrimitive<u16>>::cast_from(0xFFFF), -1i16);
    assert_eq!(u8::type_enum(), PixelType::U8);
    assert_eq!(u16::type_enum(), PixelType::U16);
    assert_eq!(5i16.to_i32(), 5);
    assert_eq!((-1i32).as_u8(), 255u8);
}

#[test]
fn padding_replicates_nearest_edge() {
    let mut p = Plane::new(4, 4, 0, 0, 3, 3);
    for y in 0..4 {
        for x in 0..4 {
            p.put(3 + x, 3 + y, (10 * y + x) as u16 + 1);
        }
    }
    p.pad(4, 4);
    // top-left corner of the margin replicates the first visible sample
    assert_eq!(p.get(0, 0), 1);
    // right margin replicates the row's last visible sample
    assert_eq!(p.get(8, 3), 4);
    assert_eq!(p.get(8, 6), 34);
    // bottom margin replicates the last row
    assert_eq!(p.get(3, 9), 31);
    // and the bottom-right corner the last visible sample
    assert_eq!(p.get(9, 9), 34);
    assert!(p.probe_padding(4, 4));
}

#[test]
fn sad_zero_on_identical_blocks() {
    let p = plane_filled(8, 8, 4, 128);
    let a = PlaneRegion::new_from_plane(&p);
    let b = PlaneRegion::new_from_plane(&p);
    assert_eq!(get_sad(&a, &b, 8, 8, 8), 0);
}

#[test]
fn satd_zero_on_identical_blocks() {
    let p = plane_filled(8, 8, 4, 128);
    let a = PlaneRegion::new_from_plane(&p);
    let b = PlaneRegion::new_from_plane(&p);
    assert_eq!(get_satd(&a, &b, 8, 8, 8), 0);
}

#[test]
fn weighted_sse_zero_on_identical_blocks() {
    let p = plane_filled(8, 8, 4, 128);
    let a = PlaneRegion::new_from_plane(&p);
    let b = PlaneRegion::new_from_plane(&p);
    let scale = vec![256u32; 4];
    assert_eq!(get_weighted_sse(&a, &b, &scale, 2, 8, 8, 8), 0);
}

#[test]
fn sad_and_satd_concrete_values() {
    let mut s = Plane::new(4, 4, 0, 0, 2, 2);
    let z = plane_filled(4, 4, 2, 0);
    for y in 0..s.cfg.alloc_height {
        for x in 0..s.cfg.stride {
            s.put(x, y, 0);
        }
    }
    for y in 0..4 {
        for x in 0..4 {
            s.put(2 + x, 2 + y, (y * 4 + x) as u16);
        }
    }
    let a = PlaneRegion::new_from_plane(&s);
    let b = PlaneRegion::new_from_plane(&z);
    assert_eq!(get_sad(&a, &b, 4, 4, 8), 120);
    assert_eq!(get_satd(&a, &b, 4, 4, 8), 60);
}

#[test]
fn filter_row_selects_table_entry() {
    let f = get_filter(FilterMode::REGULAR, 1, 8);
    assert_eq!(f, [0, 2, -6, 126, 8, -2, 0, 0]);
    let b = get_filter(FilterMode::BILINEAR, 4, 8);
    assert_eq!(b, [0, 0, 0, 96, 32, 0, 0, 0]);
    // short blocks fall back to the narrow-tap tables
    let n = get_filter(FilterMode::SHARP, 1, 4);
    assert_eq!(n, [0, 0, 30, 62, 34, 2, 0, 0]);
}

#[test]
fn put_8tap_copies_at_zero_phase() {
    let mut src = Plane::new(16, 16, 0, 0, 8, 8);
    for y in 0..src.cfg.alloc_height {
        for x in 0..src.cfg.stride {
            src.put(x, y, ((x * 7 + y * 3) % 251) as u16);
        }
    }
    let mut dst = plane_filled(16, 16, 8, 0);
    let s = PlaneSlice::new(&src, 2, 2);
    put_8tap(&mut dst, 8, 8, s, 8, 8, 0, 0,
        FilterMode::REGULAR, FilterMode::REGULAR, 8);
    for j in 0..8 {
        for i in 0..8 {
            assert_eq!(dst.get(8 + i, 8 + j), src.get(10 + i, 10 + j));
        }
    }
}

#[test]
fn put_8tap_preserves_flat_blocks() {
    // every filter row sums to 128, so a constant source stays constant
    let src = plane_filled(16, 16, 8, 100);
    let mut dst = plane_filled(16, 16, 8, 0);
    let s = PlaneSlice::new(&src, 2, 2);
    put_8tap(&mut dst, 8, 8, s, 8, 8, 8, 8,
        FilterMode::REGULAR, FilterMode::REGULAR, 8);
    for j in 0..8 {
        for i in 0..8 {
            assert_eq!(dst.get(8 + i, 8 + j), 100);
        }
    }
}

#[test]
fn prep_and_avg_round_trip_flat_blocks() {
    let src = plane_filled(16, 16, 8, 100);
    let mut t1 = vec![0i16; 64];
    let mut t2 = vec![0i16; 64];
    prep_8tap(&mut t1, PlaneSlice::new(&src, 2, 2), 8, 8, 0, 0, FilterMode::REGULAR, FilterMode::REGULAR, 8);
    prep_8tap(&mut t2, PlaneSlice::new(&src, 2, 2), 8, 8, 8, 8, FilterMode::REGULAR, FilterMode::REGULAR, 8);
    assert_eq!(t1[0], 1600); // 100 << 4
    assert_eq!(t2[0], 1600); // two-pass filtering of a flat block
    let mut dst = plane_filled(16, 16, 8, 0);
    mc_avg(&mut dst, 8, 8, &t1, &t2, 8, 8, 8);
    for j in 0..8 {
        for i in 0..8 {
            assert_eq!(dst.get(8 + i, 8 + j), 100);
        }
    }
}

#[test]
fn inverse_identity_of_single_coefficient() {
    // A lone coefficient scales twice by the fixed-point sqrt(2) and lands
    // only on its own cell; on a zero prediction the first cell saturates.
    let mut dst = plane_filled(16, 16, 4, 0);
    let mut input = vec![0i32; 16];
    input[0] = 256;
    inverse_transform_add(&input, &mut dst, 4, 4, 1, TxSize::TX_4X4, TxType::IDTX, 8);
    assert_eq!(dst.get(4, 4), 255); // round_shift(5793*round_shift(5793*256,12),12) clamped
    assert_eq!(dst.get(5, 4), 0);
    assert_eq!(dst.get(4, 5), 0);
    assert_eq!(dst.get(7, 7), 0);
}

#[test]
fn inverse_identity_uniform_input() {
    // With every coefficient at 256 the identity transform is uniform and
    // saturates each cell to the sample maximum.
    let mut dst = plane_filled(16, 16, 4, 0);
    let input = vec![256i32; 16];
    inverse_transform_add(&input, &mut dst, 4, 4, 1, TxSize::TX_4X4, TxType::IDTX, 8);
    for j in 0..4 {
        for i in 0..4 {
            assert_eq!(dst.get(4 + i, 4 + j), 255);
        }
    }
}

#[test]
fn inverse_dct_dc_only_is_flat() {
    let mut dst = plane_filled(16, 16, 4, 0);
    let mut input = vec![0i32; 16];
    input[0] = 256;
    inverse_transform_add(&input, &mut dst, 4, 4, 1, TxSize::TX_4X4, TxType::DCT_DCT, 8);
    // round_shift(2896 * round_shift(2896*256, 12), 12) == 128, flat
    for j in 0..4 {
        for i in 0..4 {
            assert_eq!(dst.get(4 + i, 4 + j), 128);
        }
    }
}

#[test]
fn inverse_transform_zero_coefficients_keep_prediction() {
    let mut dst = plane_filled(16, 16, 4, 93);
    let input = vec![0i32; 16];
    inverse_transform_add(&input, &mut dst, 4, 4, 1, TxSize::TX_4X4, TxType::DCT_DCT, 8);
    for j in 0..4 {
        for i in 0..4 {
            assert_eq!(dst.get(4 + i, 4 + j), 93);
        }
    }
}

#[test]
fn inverse_transform_zero_eob_is_noop() {
    let mut dst = plane_filled(16, 16, 4, 55);
    let mut input = vec![0i32; 16];
    input[0] = 1000;
    inverse_transform_add(&input, &mut dst, 4, 4, 0, TxSize::TX_4X4, TxType::DCT_DCT, 8);
    assert_eq!(dst.get(4, 4), 55);
}

#[test]
fn tx_type_decomposition() {
    assert_eq!(get_1d_tx_types(TxType::DCT_DCT), (TxType1D::DCT, TxType1D::DCT));
    assert_eq!(get_1d_tx_types(TxType::V_DCT), (TxType1D::DCT, TxType1D::IDTX));
    assert_eq!(get_1d_tx_types(TxType::WHT_WHT), (TxType1D::WHT, TxType1D::WHT));
}

#[test]
fn cdef_filter_preserves_flat_blocks() {
    let src = plane_filled(16, 16, 4, 77);
    let inp = PlaneRegion::new(&src, Rect { x: 2, y: 2, width: 8, height: 8 });
    let mut dst = plane_filled(16, 16, 4, 0);
    cdef_filter_block(&mut dst, 4, 4, &inp, 4, 2, 3, 5, 8, 0, 0, CDEF_HAVE_ALL);
    for j in 0..8 {
        for i in 0..8 {
            assert_eq!(dst.get(4 + i, 4 + j), 77);
        }
    }
}

#[test]
fn cdef_output_stays_within_tap_extrema() {
    // a noisy block: every output must lie between the smallest and largest
    // sample in its 5x5 neighbourhood (a superset of the taps read)
    let mut src = plane_filled(16, 16, 4, 0);
    for y in 0..16 {
        for x in 0..16 {
            src.put(x, y, ((x * 13 + y * 29) % 200) as u16);
        }
    }
    let inp = PlaneRegion::new(&src, Rect { x: 2, y: 2, width: 8, height: 8 });
    let mut dst = plane_filled(16, 16, 4, 0);
    cdef_filter_block(&mut dst, 4, 4, &inp, 7, 3, 2, 4, 8, 0, 0, CDEF_HAVE_ALL);
    for j in 0i64..8 {
        for i in 0i64..8 {
            let mut lo = u16::MAX;
            let mut hi = 0u16;
            for dy in -2i64..3 {
                for dx in -2i64..3 {
                    let v = src.get((4 + i + dx) as usize, (4 + j + dy) as usize);
                    lo = lo.min(v);
                    hi = hi.max(v);
                }
            }
            let out = dst.get((4 + i) as usize, (4 + j) as usize);
            assert!(lo <= out && out <= hi);
        }
    }
}

#[test]
fn cdef_direction_of_flat_block_is_zero() {
    let src = plane_filled(16, 16, 4, 128);
    let inp = PlaneRegion::new(&src, Rect { x: 2, y: 2, width: 8, height: 8 });
    let mut var = 1234u32;
    let dir = cdef_find_dir(&inp, &mut var, 0);
    assert_eq!(dir, 0);
    assert_eq!(var, 0);
}

#[test]
fn cdef_direction_prefers_vertical_stripes() {
    // strong vertical structure: columns of alternating brightness
    let mut src = plane_filled(16, 16, 4, 0);
    for y in 0..16 {
        for x in 0..16 {
            src.put(x, y, if x % 2 == 0 { 60 } else { 190 });
        }
    }
    let inp = PlaneRegion::new(&src, Rect { x: 2, y: 2, width: 8, height: 8 });
    let mut var = 0u32;
    let dir = cdef_find_dir(&inp, &mut var, 0);
    // vertical stripes have their energy in the column partials
    assert_eq!(dir, 6);
    assert!(var > 0);
}

#[test]
fn tile_rect_conversions() {
    let tr = TileRect { x: 64, y: 32, width: 64, height: 32 };
    let d = tr.decimated(1, 1);
    assert_eq!((d.x, d.y, d.width, d.height), (32, 16, 32, 16));
    let po = tr.to_frame_plane_offset(PlaneOffset { x: -4, y: 6 });
    assert_eq!((po.x, po.y), (60, 38));
    let bo = tr.to_frame_block_offset(TileBlockOffset(BlockOffset { x: 2, y: 3 }), 0, 0);
    assert_eq!((bo.0.x, bo.0.y), (18, 11));
    let sbo = tr.to_frame_super_block_offset(
        pixel_core::tiling::TileSuperBlockOffset(pixel_core::tiling::SuperBlockOffset { x: 1, y: 0 }),
        6, 0, 0);
    assert_eq!((sbo.0.x, sbo.0.y), (2, 0));
}

#[test]
fn frame_allocates_decimated_chroma() {
    let f = Frame::new(33, 17, ChromaSampling::Cs420);
    assert_eq!(f.y_plane.cfg.width, 33);
    assert_eq!(f.u_plane.as_ref().unwrap().cfg.width, 17);
    assert_eq!(f.u_plane.as_ref().unwrap().cfg.height, 9);
    let m = Frame::new(33, 17, ChromaSampling::Monochrome);
    assert!(m.u_plane.is_none());
    assert_eq!(FrameTypeOverride::default(), FrameTypeOverride::No);
}

#[test]
fn frame_pad_replicates_luma_edges() {
    let mut f = Frame::new(8, 8, ChromaSampling::Cs420);
    for y in 0..8 {
        for x in 0..8 {
            let v = (y * 8 + x + 1) as u16;
            f.y_plane.put(88 + x, 88 + y, v);
        }
    }
    f.pad(8, 8);
    assert_eq!(f.y_plane.get(0, 0), 1);
    assert_eq!(f.y_plane.get(87, 88), 1);
    assert_eq!(f.y_plane.get(96, 95), 64);
}

#[test]
fn plane_slice_navigation() {
    let p = plane_filled(8, 8, 4, 9);
    let s = PlaneSlice::new(&p, 0, 0);
    let t = s.subslice(2, 3).go_up(1).go_left(1).reslice(1, 1);
    assert_eq!(t.x, 2);
    assert_eq!(t.y, 3);
    assert!(s.accessible(7, 7));
    assert!(s.accessible_neg(4, 4));
    assert!(!s.accessible_neg(5, 1));
    assert_eq!(s.p(0, 0), 9);
    let c = PlaneSlice::new(&p, -100, 200).clamp();
    assert_eq!(c.x, -4);
    assert_eq!(c.y, 8);
    let row = s.row(0);
    assert_eq!(row.len(), 12);
    let rowc = s.row_cropped(0);
    assert_eq!(rowc.len(), 8);
}


fn integral_images(v: u64, w: usize, h: usize) -> (Vec<u32>, Vec<u32>, usize) {
    // integral images of a constant-valued w x h sample grid
    let stride = w + 1;
    let mut iimg = vec![0u32; stride * (h + 1)];
    let mut iimg_sq = vec![0u32; stride * (h + 1)];
    for y in 1..=h {
        for x in 1..=w {
            iimg[y * stride + x] = (v as u32) * (x as u32) * (y as u32);
            iimg_sq[y * stride + x] = (v * v) as u32 * (x as u32) * (y as u32);
        }
    }
    (iimg, iimg_sq, stride)
}

#[test]
fn restoration_weights_of_flat_stripe() {
    // a constant-9 region has zero variance: full blend weight on the mean
    let (iimg, iimg_sq, stride) = integral_images(9, 12, 12);
    let mut af = vec![0u32; 8];
    let mut bf = vec![0u32; 8];
    sgrproj_box_ab_r1(&mut af, &mut bf, &iimg, &iimg_sq, stride, 0, 6, 25, 8);
    for x in 0..8 {
        assert_eq!(af[x], 1);
        assert_eq!(bf[x], 2294); // round_shift((256-1)*81*455, 12)
    }
    let mut af2 = vec![0u32; 8];
    let mut bf2 = vec![0u32; 8];
    sgrproj_box_ab_r2(&mut af2, &mut bf2, &iimg, &iimg_sq, stride, 0, 6, 25, 8);
    for x in 0..8 {
        assert_eq!(af2[x], 1);
        assert_eq!(bf2[x], 2297); // round_shift((256-1)*225*164, 12)
    }
}

#[test]
fn restoration_filter_of_flat_stripe_is_passthrough() {
    // on a constant image every radius returns the sample at restoration
    // precision: 9 << SGRPROJ_RST_BITS == 144
    let src = plane_filled(12, 12, 4, 9);
    let cd = PlaneSlice::new(&src, 0, 0);
    let mut f = vec![0u32; 6];
    sgrproj_box_f_r0(&mut f, 0, 6, &cd);
    assert_eq!(f, vec![144u32; 6]);

    let af = vec![1u32; 8];
    let bf = vec![2294u32; 8];
    let mut f1 = vec![0u32; 6];
    sgrproj_box_f_r1(&af, &af, &af, &bf, &bf, &bf, &mut f1, 0, 6, &cd);
    assert_eq!(f1, vec![144u32; 6]);

    let af2 = vec![1u32; 8];
    let bf2 = vec![2297u32; 8];
    let mut f0 = vec![0u32; 6];
    let mut fo = vec![0u32; 6];
    sgrproj_box_f_r2(&af2, &af2, &bf2, &bf2, &mut f0, &mut fo, 0, 6, &cd);
    assert_eq!(f0, vec![144u32; 6]);
    assert_eq!(fo, vec![144u32; 6]);
}

#[test]
fn cdef_dist_stats_concrete_and_zero() {
    let mut s = plane_filled(4, 4, 2, 0);
    for y in 0..4 {
        for x in 0..4 {
            s.put(2 + x, 2 + y, (y * 4 + x) as u16);
        }
    }
    let z = plane_filled(4, 4, 2, 0);
    let a = PlaneRegion::new_from_plane(&s);
    let b = PlaneRegion::new_from_plane(&z);
    let (sse, svar, dvar) = cdef_dist_kernel_stats(&a, &b, 4, 4, 8);
    assert_eq!(sse, 1240); // sum of squares of 0..=15
    assert_eq!(svar, 1360); // (1240 - round_shift(120*120, 4)) << 2
    assert_eq!(dvar, 0);
    let (sse2, svar2, dvar2) = cdef_dist_kernel_stats(&a, &a, 4, 4, 8);
    assert_eq!(sse2, 0);
    assert_eq!(svar2, dvar2);
}

#[test]
fn inverse_dct_dc_only_is_flat_at_ten_bits() {
    let mut dst = plane_filled(16, 16, 4, 0);
    let mut input = vec![0i32; 16];
    input[0] = 256;
    inverse_transform_add(&input, &mut dst, 4, 4, 1, TxSize::TX_4X4, TxType::DCT_DCT, 10);
    for j in 0..4 {
        for i in 0..4 {
            assert_eq!(dst.get(4 + i, 4 + j), 128);
        }
    }
}

#[test]
fn inverse_transform_zero_eob_is_noop_at_twelve_bits() {
    let mut dst = plane_filled(16, 16, 4, 2222);
    let mut input = vec![0i32; 16];
    input[0] = 1000;
    inverse_transform_add(&input, &mut dst, 4, 4, 0, TxSize::TX_4X4, TxType::DCT_DCT, 12);
    assert_eq!(dst.get(4, 4), 2222);
    let zero = vec![0i32; 16];
    inverse_transform_add(&zero, &mut dst, 4, 4, 1, TxSize::TX_4X4, TxType::DCT_DCT, 12);
    assert_eq!(dst.get(4, 4), 2222); // zero coefficients keep the prediction
}

#[test]
fn mutable_region_writes_through() {
    let mut p = plane_filled(8, 8, 2, 0);
    let mut r = PlaneRegionMut::new(&mut p, Rect { x: 1, y: 1, width: 4, height: 4 });
    r.put(0, 0, 55);
    r.put(3, 3, 66);
    assert_eq!(r.get(0, 0), 55);
    let c = r.as_const();
    assert_eq!(c.get(3, 3), 66);
    assert_eq!(p.get(3, 3), 55); // origin (2,2) plus rect offset (1,1)
    assert_eq!(p.get(6, 6), 66);
}

#[test]
fn mutable_tile_splits_planes() {
    let mut f = Frame::new(16, 16, ChromaSampling::Cs420);
    let mut t = TileMut::new(&mut f, pixel_core::tiling::TileRect { x: 0, y: 0, width: 16, height: 16 });
    t.luma.put(0, 0, 11);
    t.chroma0.as_mut().unwrap().put(0, 0, 22);
    t.chroma1.as_mut().unwrap().put(0, 0, 33);
    assert_eq!(t.chroma0.as_ref().unwrap().rect.width, 8);
    let c = t.as_const();
    assert_eq!(c.luma.get(0, 0), 11);
    assert_eq!(c.chroma0.get(0, 0), 22);
    assert_eq!(f.y_plane.get(88, 88), 11);
    assert_eq!(f.u_plane.as_ref().unwrap().get(88, 88), 22);
    assert_eq!(f.v_plane.as_ref().unwrap().get(88, 88), 33);
}

#[test]
fn tile_views_decimated_chroma() {
    let f = Frame::new(16, 16, ChromaSampling::Cs420);
    let t = Tile::new(&f, TileRect { x: 0, y: 0, width: 16, height: 16 });
    assert_eq!(t.luma.rect.width, 16);
    assert_eq!(t.chroma0.rect.width, 8);
    assert_eq!(t.chroma1.rect.height, 8);
    let m = Frame::new(16, 16, ChromaSampling::Monochrome);
    let tm = m.as_tile();
    assert!(tm.chroma0.is_null());
}

#[test]
fn frame_planes_enumerates_channels() {
    let f = Frame::new(8, 8, ChromaSampling::Cs444);
    assert_eq!(f.planes().len(), 3);
    let m = Frame::new(8, 8, ChromaSampling::Monochrome);
    let ps = m.planes();
    assert_eq!(ps.len(), 1);
    assert_eq!(ps[0].cfg.width, 8);
}

#[test]
fn frame_pad_replicates_chroma_edges() {
    let mut f = Frame::new(8, 8, ChromaSampling::Cs420);
    for y in 0..4 {
        for x in 0..4 {
            let v = (y * 4 + x + 1) as u16;
            if let Some(u) = f.u_plane.as_mut() {
                u.put(88 + x, 88 + y, v);
            }
        }
    }
    f.pad(8, 8);
    let u = f.u_plane.as_ref().unwrap();
    assert_eq!(u.get(0, 0), 1);
    assert_eq!(u.get(91 + 4, 88), 4); // right margin of the first chroma row
}
