use vstd::prelude::*;
use crate::codec::{decode_buffer, decode_words, TileImage, WordRepresentation};
use crate::errors::DeepZoomError;
use crate::generator::TileInfo;

verus! {

/// What `image::imageops::thumbnail` returns for an RGBA buffer `data` of
/// `w` by `h` pixels resized to `new_w` by `new_h` pixels. The resample
/// is a pure function of its arguments; the name lets contracts refer to
/// its result exactly.
pub uninterp spec fn thumbnail_of(data: Seq<u8>, w: u32, h: u32, new_w: u32, new_h: u32) -> Seq<
    u8,
>;

/// Relies on image::imageops::thumbnail, an area-averaging resampler that
/// returns a freshly allocated image of exactly `new_w` by `new_h` RGBA
/// pixels and depends only on the input pixels and the four dimensions;
/// image::RgbaImage::from_raw and into_raw convert at the edges. The
/// resampler sums each output pixel's source block into a `u32` per
/// channel, so the source area is kept below `2^24` pixels: the largest
/// block sum then stays below `255 * 2^24 + 2^23 < 2^32`, and no block
/// area reaches `2^32` either, so the call cannot overflow or divide by a
/// wrapped-to-zero area.
#[verifier::external_body]
fn thumbnail_rgba(data: &Vec<u8>, w: u32, h: u32, new_w: u32, new_h: u32) -> (r: Vec<u8>)
    requires
        data@.len() == 4 * (w as int) * (h as int),
        (w as int) * (h as int) < 0x100_0000,
        4 * (new_w as int) * (new_h as int) <= usize::MAX,
    ensures
        r@ == thumbnail_of(data@, w, h, new_w, new_h),
        r@.len() == 4 * (new_w as int) * (new_h as int),
{
    let img: image::RgbaImage = image::RgbaImage::from_raw(w, h, data.clone()).unwrap();
    image::imageops::thumbnail(&img, new_w, new_h).into_raw()
}

/// Whether a located tile is one the renderer can handle: positive sizes
/// that fit the pixel machinery, with a read region below `2^24` pixels
/// (the area the resampler's per-channel accumulators are safe for).
pub open spec fn renderable(ti: TileInfo) -> bool {
    &&& 1 <= ti.l_size.0 <= u32::MAX
    &&& 1 <= ti.l_size.1 <= u32::MAX
    &&& ti.l_size.0 * ti.l_size.1 < 0x100_0000
    &&& 1 <= ti.z_size.0 <= u32::MAX
    &&& 1 <= ti.z_size.1 <= u32::MAX
    &&& 4 * ti.z_size.0 * ti.z_size.1 <= usize::MAX
}

/// Renders one located tile from its fetched native region.
///
/// The buffer is the raw region read for `tile_info`: one packed pixel
/// word per native pixel. It is decoded into straight-alpha RGBA and,
/// whenever the native read size differs from the output size (the normal
/// case), resampled to exactly the output size with an area-averaging
/// filter; an exact-size read skips resampling. Succeeds exactly when the
/// tile is renderable and the buffer matches the read size; no partial
/// tile is ever produced.
pub fn render_tile(
    tile_info: &TileInfo,
    buffer: &[u32],
    word_representation: WordRepresentation,
) -> (r: Result<TileImage, DeepZoomError>)
    ensures
        (r is Ok) == (renderable(*tile_info) && buffer@.len() == (tile_info.l_size.0 as int) * (
        tile_info.l_size.1 as int)),
        r matches Ok(img) ==> ({
            &&& img.width == tile_info.z_size.0
            &&& img.height == tile_info.z_size.1
            &&& img.data@ == (if tile_info.l_size == tile_info.z_size {
                decode_words(buffer@, word_representation)
            } else {
                thumbnail_of(
                    decode_words(buffer@, word_representation),
                    tile_info.l_size.0 as u32,
                    tile_info.l_size.1 as u32,
                    tile_info.z_size.0 as u32,
                    tile_info.z_size.1 as u32,
                )
            })
        }),
        r matches Err(e) ==> e == DeepZoomError::RenderFailure,
{
    let (lw64, lh64) = tile_info.l_size;
    let (zw64, zh64) = tile_info.z_size;
    let u32max: u64 = 0xffff_ffff;
    if lw64 < 1 || lw64 > u32max || lh64 < 1 || lh64 > u32max || zw64 < 1 || zw64 > u32max
        || zh64 < 1 || zh64 > u32max {
        return Err(DeepZoomError::RenderFailure);
    }
    proof {
        vstd::arithmetic::mul::lemma_mul_upper_bound(
            lw64 as int,
            0xffff_ffff,
            lh64 as int,
            0xffff_ffff,
        );
    }
    if (lw64 as u128) * (lh64 as u128) >= 0x100_0000 {
        return Err(DeepZoomError::RenderFailure);
    }
    proof {
        vstd::arithmetic::mul::lemma_mul_upper_bound(
            4 * zw64 as int,
            0x4_0000_0000,
            zh64 as int,
            0xffff_ffff,
        );
    }
    if 4u128 * (zw64 as u128) * (zh64 as u128) > usize::MAX as u128 {
        return Err(DeepZoomError::RenderFailure);
    }
    let lw = lw64 as u32;
    let lh = lh64 as u32;
    let zw = zw64 as u32;
    let zh = zh64 as u32;
    let decoded = match decode_buffer(buffer, lh, lw, word_representation) {
        Ok(d) => d,
        Err(e) => {
            return Err(e);
        },
    };
    if lw64 == zw64 && lh64 == zh64 {
        Ok(decoded)
    } else {
        proof {
            vstd::arithmetic::mul::lemma_mul_is_associative(4, lw as int, lh as int);
        }
        let data = thumbnail_rgba(&decoded.data, lw, lh, zw, zh);
        Ok(TileImage { data, width: zw, height: zh })
    }
}

} // verus!
