// Tests against the geometry of a known slide: level-0 dimensions
// 113288 x 83050, four native levels, tile size 254, overlap 1.

use deepzoom::codec::WordRepresentation;
use deepzoom::errors::DeepZoomError;
use deepzoom::generator::{DeepZoomGenerator, TileInfo};
use deepzoom::ratio::Ratio;
use deepzoom::render::render_tile;

/// Converts a finite IEEE double in `[1, 2^53)` losslessly into a Ratio.
fn ratio_from_f64(v: f64) -> Ratio {
    assert!(v.is_finite() && v >= 1.0);
    let bits = v.to_bits();
    let exp = ((bits >> 52) & 0x7ff) as i64 - 1075;
    let mant = (bits & 0xf_ffff_ffff_ffff) | 0x10_0000_0000_0000;
    if exp >= 0 {
        Ratio { num: mant << exp, den: 1 }
    } else {
        Ratio { num: mant, den: 1u64 << (-exp) }
    }
}

fn fixture_downsamples() -> Vec<f64> {
    vec![1.0, 4.000048164916675, 16.001528362888216, 32.00305672577643]
}

fn fixture_generator() -> DeepZoomGenerator {
    let ratios: Vec<Ratio> = fixture_downsamples().iter().map(|v| ratio_from_f64(*v)).collect();
    DeepZoomGenerator::new(
        (113288, 83050),
        vec![(113288, 83050), (28322, 20762), (7080, 5190), (3540, 2595)],
        ratios,
        254,
        1,
    )
    .unwrap()
}

#[test]
fn sanity_check_initialisation() {
    let g = fixture_generator();

    // Below test cases assume these parameters:
    assert_eq!(g.tile_size(), 254);
    assert_eq!(g.overlap(), 1);

    assert_eq!(g.l0_dimensions(), (113288, 83050));
    assert_eq!(
        g.level_dimensions(),
        &vec![(113288, 83050), (28322, 20762), (7080, 5190), (3540, 2595)]
    );
    assert_eq!(
        g.z_dimensions(),
        &vec![
            (1, 1),
            (2, 2),
            (4, 3),
            (7, 6),
            (14, 11),
            (28, 21),
            (56, 41),
            (111, 82),
            (222, 163),
            (443, 325),
            (886, 649),
            (1771, 1298),
            (3541, 2596),
            (7081, 5191),
            (14161, 10382),
            (28322, 20763),
            (56644, 41525),
            (113288, 83050)
        ]
    );
    assert_eq!(
        g.t_dimensions(),
        &vec![
            (1, 1),
            (1, 1),
            (1, 1),
            (1, 1),
            (1, 1),
            (1, 1),
            (1, 1),
            (1, 1),
            (1, 1),
            (2, 2),
            (4, 3),
            (7, 6),
            (14, 11),
            (28, 21),
            (56, 41),
            (112, 82),
            (224, 164),
            (447, 327)
        ]
    );
    assert_eq!(
        g.slide_from_dz_level(),
        &vec![3, 3, 3, 3, 3, 3, 3, 3, 3, 3, 3, 3, 2, 1, 1, 0, 0, 0]
    );
    // The residual downsamples are exact rationals; rounded to the nearest
    // IEEE double they equal the values the float computation produced.
    let lz_as_f64: Vec<f64> = g
        .l_z_downsamples()
        .iter()
        .map(|r| (r.num as f64) / (r.den as f64))
        .collect();
    assert_eq!(
        lz_as_f64,
        vec![
            4095.608776471337,
            2047.8043882356685,
            1023.9021941178343,
            511.9510970589171,
            255.97554852945856,
            127.98777426472928,
            63.99388713236464,
            31.99694356618232,
            15.99847178309116,
            7.99923589154558,
            3.99961794577279,
            1.999808972886395,
            1.999808972886395,
            3.9999518356632833,
            1.9999759178316416,
            4.0,
            2.0,
            1.0
        ]
    );
    let ds_as_f64: Vec<f64> = g
        .l0_l_downsamples()
        .iter()
        .map(|r| (r.num as f64) / (r.den as f64))
        .collect();
    assert_eq!(ds_as_f64, fixture_downsamples());
}

#[test]
fn test_get_tile_info() {
    let g = fixture_generator();
    assert_eq!(
        g.get_tile_info(13, (4, 4)).unwrap(),
        TileInfo {
            l0_location: (16240, 16240),
            slide_level: 1,
            l_size: (1024, 1024),
            z_size: (256, 256),
        }
    );
}

#[test]
fn test_get_tile_0() {
    let g = fixture_generator();
    let info = g.get_tile_info(13, (4, 4)).unwrap();
    assert_eq!(info.l_size, (1024, 1024));
    // a uniform opaque region stands in for the slide's pixels: the
    // 1024x1024 read must come back resampled to exactly 256x256
    let buffer = vec![0xff64_6464u32; 1024 * 1024];
    let tile = render_tile(&info, &buffer, WordRepresentation::BigEndian).unwrap();
    assert_eq!((tile.width, tile.height), (256, 256));
    assert_eq!(tile.data.len(), 4 * 256 * 256);
    assert_eq!(&tile.data[0..4], &[100, 100, 100, 255]);
}

#[test]
fn test_get_tile_out_of_bounds() {
    let g = fixture_generator();
    let res = g.get_tile_info(12, (5, 11));
    match res {
        Ok(_val) => panic!("Should error out"),
        Err(e) => {
            assert_eq!(e, DeepZoomError::OutOfRange);
        }
    }
}

#[test]
fn dzi_descriptor_exact() {
    let g = fixture_generator();
    assert_eq!(
        g.get_dzi(),
        "{\"Image\":{\"Format\":\"jpg\",\"Overlap\":1,\"Size\":{\"Height\":83050,\"Width\":113288},\"TileSize\":254,\"xmlns\":\"http://schemas.microsoft.com/deepzoom/2008\"}}"
    );
}
