// Pixel decoding and tile rendering: straight-alpha conversion, decode
// failures, and resampling through the real image pipeline.

use deepzoom::codec::{decode_buffer, WordRepresentation};
use deepzoom::errors::DeepZoomError;
use deepzoom::generator::TileInfo;
use deepzoom::render::render_tile;

#[test]
fn unpremultiplication_scenario() {
    // alpha 128, red 64: the red channel must decode to 64 * 255 / 128,
    // rounded, i.e. 128
    let buffer = [0x8040_0000u32];
    let img = decode_buffer(&buffer, 1, 1, WordRepresentation::BigEndian).unwrap();
    assert_eq!(img.data, vec![128, 0, 0, 128]);
}

#[test]
fn opaque_and_transparent_pixels_pass_through() {
    let buffer = [0xff12_3456u32, 0x0012_3456u32];
    let img = decode_buffer(&buffer, 1, 2, WordRepresentation::BigEndian).unwrap();
    assert_eq!(img.data, vec![0x12, 0x34, 0x56, 0xff, 0x12, 0x34, 0x56, 0x00]);
}

#[test]
fn unpremultiplication_clamps_to_255() {
    // alpha 1, red 255: 255 * 255 / 1 clamps to 255
    let buffer = [0x01ff_0000u32];
    let img = decode_buffer(&buffer, 1, 1, WordRepresentation::BigEndian).unwrap();
    assert_eq!(img.data, vec![255, 0, 0, 1]);
}

#[test]
fn unpremultiplication_rounds_half_up() {
    // alpha 2, red 1: 1 * 255 / 2 = 127.5 rounds to 128
    let buffer = [0x0201_0000u32];
    let img = decode_buffer(&buffer, 1, 1, WordRepresentation::BigEndian).unwrap();
    assert_eq!(img.data, vec![128, 0, 0, 2]);
}

#[test]
fn decode_rejects_wrong_buffer_size() {
    let buffer = [0u32; 3];
    assert!(matches!(
        decode_buffer(&buffer, 2, 2, WordRepresentation::BigEndian),
        Err(DeepZoomError::RenderFailure)
    ));
}

#[test]
fn little_endian_words_put_alpha_in_the_low_byte() {
    // most to least significant: [blue, green, red, alpha]
    let buffer = [0x1020_40ffu32];
    let img = decode_buffer(&buffer, 1, 1, WordRepresentation::LittleEndian).unwrap();
    assert_eq!(img.data, vec![0x40, 0x20, 0x10, 0xff]);
}

#[test]
fn little_endian_unpremultiplication() {
    // alpha 128 in the low byte, red 64 beside it: red decodes to 128
    let buffer = [0x0000_4080u32];
    let img = decode_buffer(&buffer, 1, 1, WordRepresentation::LittleEndian).unwrap();
    assert_eq!(img.data, vec![128, 0, 0, 128]);
}

#[test]
fn render_exact_size_read_skips_resampling() {
    let ti = TileInfo {
        l0_location: (0, 0),
        slide_level: 0,
        l_size: (1, 1),
        z_size: (1, 1),
    };
    let buffer = [0xff64_6464u32];
    let img = render_tile(&ti, &buffer, WordRepresentation::BigEndian).unwrap();
    assert_eq!((img.width, img.height), (1, 1));
    assert_eq!(img.data, vec![100, 100, 100, 255]);
}

#[test]
fn render_resamples_to_the_output_size() {
    let ti = TileInfo {
        l0_location: (0, 0),
        slide_level: 0,
        l_size: (2, 2),
        z_size: (1, 1),
    };
    // four identical opaque pixels average to themselves
    let buffer = [0xff64_6464u32; 4];
    let img = render_tile(&ti, &buffer, WordRepresentation::BigEndian).unwrap();
    assert_eq!((img.width, img.height), (1, 1));
    assert_eq!(img.data, vec![100, 100, 100, 255]);
}

#[test]
fn render_rejects_wrong_buffer_size() {
    let ti = TileInfo {
        l0_location: (0, 0),
        slide_level: 0,
        l_size: (2, 2),
        z_size: (1, 1),
    };
    let buffer = [0xff64_6464u32; 3];
    assert!(matches!(
        render_tile(&ti, &buffer, WordRepresentation::BigEndian),
        Err(DeepZoomError::RenderFailure)
    ));
}

#[test]
fn render_rejects_degenerate_tiles() {
    let ti = TileInfo {
        l0_location: (0, 0),
        slide_level: 0,
        l_size: (0, 1),
        z_size: (1, 1),
    };
    let buffer: [u32; 0] = [];
    assert!(matches!(
        render_tile(&ti, &buffer, WordRepresentation::BigEndian),
        Err(DeepZoomError::RenderFailure)
    ));
}
