// Property checks on concrete slides: pyramid endpoints, tile-grid
// formulas, overlap placement, abutment of adjacent tiles, monotone
// native-level mapping, and rejection of bad configurations.

use deepzoom::errors::DeepZoomError;
use deepzoom::generator::DeepZoomGenerator;
use deepzoom::ratio::Ratio;

fn one() -> Ratio {
    Ratio { num: 1, den: 1 }
}

/// A single-native-level slide for geometry checks.
fn small_slide(w: u64, h: u64, ts: u64, ovl: u64) -> DeepZoomGenerator {
    DeepZoomGenerator::new((w, h), vec![(w, h)], vec![one()], ts, ovl).unwrap()
}

#[test]
fn smallest_level_is_one_pixel_largest_is_level0() {
    let g = small_slide(500, 300, 100, 2);
    let z = g.z_dimensions();
    assert_eq!(z[0], (1, 1));
    assert_eq!(*z.last().unwrap(), (500, 300));
    assert_eq!(z.len(), 10);

    let g = small_slide(1, 1, 254, 1);
    assert_eq!(g.z_dimensions(), &vec![(1, 1)]);
    assert_eq!(g.t_dimensions(), &vec![(1, 1)]);
    let ti = g.get_tile_info(0, (0, 0)).unwrap();
    assert_eq!(ti.z_size, (1, 1));
    assert_eq!(ti.l_size, (1, 1));
    assert_eq!(ti.l0_location, (0, 0));
}

#[test]
fn tile_grid_is_ceiling_quotient() {
    let g = small_slide(500, 300, 100, 2);
    let z = g.z_dimensions();
    let t = g.t_dimensions();
    for i in 0..z.len() {
        assert_eq!(t[i].0, (z[i].0 + 99) / 100);
        assert_eq!(t[i].1, (z[i].1 + 99) / 100);
    }
}

#[test]
fn output_size_never_exceeds_tile_plus_overlaps() {
    let g = small_slide(500, 300, 100, 2);
    for dz in 0..10u64 {
        let (tw, th) = g.t_dimensions()[dz as usize];
        for col in 0..tw {
            for row in 0..th {
                let ti = g.get_tile_info(dz, (col, row)).unwrap();
                assert!(ti.z_size.0 <= 100 + 2 * 2);
                assert!(ti.z_size.1 <= 100 + 2 * 2);
                assert!(ti.z_size.0 >= 1 && ti.z_size.1 >= 1);
            }
        }
    }
}

#[test]
fn overlap_only_on_interior_edges() {
    let g = small_slide(500, 300, 100, 2);
    // top level: 500x300 pixels, 5x3 tiles, every interior extent 100
    let dz = 9u64;
    // corner tile: no lead overlap, trailing overlap on both axes
    assert_eq!(g.get_tile_info(dz, (0, 0)).unwrap().z_size, (102, 102));
    // interior tile: overlap on all four sides
    assert_eq!(g.get_tile_info(dz, (1, 1)).unwrap().z_size, (104, 104));
    // last column: lead overlap only on x; last row: lead overlap only on y
    assert_eq!(g.get_tile_info(dz, (4, 1)).unwrap().z_size, (102, 104));
    assert_eq!(g.get_tile_info(dz, (1, 2)).unwrap().z_size, (104, 102));
    // opposite corner: lead overlaps only
    assert_eq!(g.get_tile_info(dz, (4, 2)).unwrap().z_size, (102, 102));
}

#[test]
fn adjacent_tiles_abut_without_gaps() {
    // overlap zero, so each tile's read region is exactly its interior
    let g = small_slide(450, 300, 100, 0);
    // top level (total downsample 1) and the level below (downsample 2)
    for dz in [9u64, 8u64] {
        let d = 1u64 << (9 - dz);
        let (tw, _) = g.t_dimensions()[dz as usize];
        let mut expected_origin = 0u64;
        for col in 0..tw {
            let ti = g.get_tile_info(dz, (col, 0)).unwrap();
            assert_eq!(ti.l0_location.0, expected_origin);
            expected_origin += d * ti.z_size.0;
        }
        // the last tile's region ends exactly at the level-0 width it covers
        assert_eq!(expected_origin, d * g.z_dimensions()[dz as usize].0);
    }
}

#[test]
fn native_level_mapping_is_monotonic() {
    fn ratio_from_f64(v: f64) -> Ratio {
        let bits = v.to_bits();
        let exp = ((bits >> 52) & 0x7ff) as i64 - 1075;
        let mant = (bits & 0xf_ffff_ffff_ffff) | 0x10_0000_0000_0000;
        if exp >= 0 {
            Ratio { num: mant << exp, den: 1 }
        } else {
            Ratio { num: mant, den: 1u64 << (-exp) }
        }
    }
    let g = DeepZoomGenerator::new(
        (113288, 83050),
        vec![(113288, 83050), (28322, 20762), (7080, 5190), (3540, 2595)],
        vec![
            ratio_from_f64(1.0),
            ratio_from_f64(4.000048164916675),
            ratio_from_f64(16.001528362888216),
            ratio_from_f64(32.00305672577643),
        ],
        254,
        1,
    )
    .unwrap();
    // requested downsample grows as the virtual level index falls, and the
    // chosen native level never moves down
    let s = g.slide_from_dz_level();
    for w in s.windows(2) {
        assert!(w[0] >= w[1]);
    }
}

#[test]
fn out_of_range_requests_fail_with_out_of_range() {
    let g = small_slide(500, 300, 100, 2);
    assert_eq!(g.get_tile_info(10, (0, 0)), Err(DeepZoomError::OutOfRange));
    assert_eq!(g.get_tile_info(u64::MAX, (0, 0)), Err(DeepZoomError::OutOfRange));
    // top level has 5x3 tiles
    assert_eq!(g.get_tile_info(9, (5, 0)), Err(DeepZoomError::OutOfRange));
    assert_eq!(g.get_tile_info(9, (0, 3)), Err(DeepZoomError::OutOfRange));
    assert_eq!(g.get_tile_info(9, (5, 3)), Err(DeepZoomError::OutOfRange));
    // everything in range succeeds
    assert!(g.get_tile_info(9, (4, 2)).is_ok());
}

#[test]
fn bad_configurations_are_rejected() {
    let dims = vec![(500u64, 300u64)];
    // zero tile size
    assert_eq!(
        DeepZoomGenerator::new((500, 300), dims.clone(), vec![one()], 0, 1).err(),
        Some(DeepZoomError::ConfigurationError)
    );
    // overlap larger than the tile size
    assert!(DeepZoomGenerator::new((500, 300), dims.clone(), vec![one()], 100, 101).is_err());
    // zero-size level-0 dimensions
    assert!(DeepZoomGenerator::new((0, 300), dims.clone(), vec![one()], 100, 1).is_err());
    assert!(DeepZoomGenerator::new((500, 0), dims.clone(), vec![one()], 100, 1).is_err());
    // no native levels
    assert!(DeepZoomGenerator::new((500, 300), vec![], vec![], 100, 1).is_err());
    // level 0 must match the level-0 dimensions
    assert!(
        DeepZoomGenerator::new((500, 300), vec![(500, 301)], vec![one()], 100, 1).is_err()
    );
    // one downsample per level
    assert!(
        DeepZoomGenerator::new((500, 300), dims.clone(), vec![one(), one()], 100, 1).is_err()
    );
    // the first downsample must be exactly one
    assert!(
        DeepZoomGenerator::new((500, 300), dims.clone(), vec![Ratio { num: 2, den: 1 }], 100, 1)
            .is_err()
    );
    // downsamples may not decrease with the level index
    assert!(
        DeepZoomGenerator::new(
            (500, 300),
            vec![(500, 300), (125, 75), (250, 150)],
            vec![one(), Ratio { num: 4, den: 1 }, Ratio { num: 2, den: 1 }],
            100,
            1
        )
        .is_err()
    );
    // a downsample below one
    assert!(
        DeepZoomGenerator::new(
            (500, 300),
            vec![(500, 300), (1000, 600)],
            vec![one(), Ratio { num: 1, den: 2 }],
            100,
            1
        )
        .is_err()
    );
    // a zero denominator
    assert!(
        DeepZoomGenerator::new((500, 300), dims.clone(), vec![Ratio { num: 0, den: 0 }], 100, 1)
            .is_err()
    );
    // dimensions beyond the supported maximum
    assert!(
        DeepZoomGenerator::new(
            (0x4000_0000_0001, 300),
            vec![(0x4000_0000_0001, 300)],
            vec![one()],
            100,
            1
        )
        .is_err()
    );
}

#[test]
fn dzi_descriptor_reports_the_construction_constants() {
    let g = small_slide(500, 300, 100, 0);
    assert_eq!(
        g.get_dzi(),
        "{\"Image\":{\"Format\":\"jpg\",\"Overlap\":0,\"Size\":{\"Height\":300,\"Width\":500},\"TileSize\":100,\"xmlns\":\"http://schemas.microsoft.com/deepzoom/2008\"}}"
    );
}
