use vstd::prelude::*;
use vstd::math::min;
use crate::errors::DeepZoomError;

verus! {

/// A list of supported slide formats.
///
/// Information gathered from the format list published by the OpenSlide
/// project.
#[derive(Clone, Debug)]
pub enum Format {
    /// Single-file pyramidal tiled TIFF, with non-standard metadata and
    /// compression.
    ///
    /// File extensions:
    ///     .svs, .tif
    Aperio,
    /// Multi-file JPEG/NGR with proprietary metadata and index file
    /// formats, and single-file TIFF-like format with proprietary
    /// metadata.
    ///
    /// File extensions:
    ///     .vms, .vmu, .ndpi
    Hamamatsu,
    /// Single-file pyramidal tiled BigTIFF with non-standard metadata.
    ///
    /// File extensions
    ///     .scn
    Leica,
    /// Multi-file with very complicated proprietary metadata and indexes.
    ///
    /// File extensions
    ///     .mrxs
    Mirax,
    /// Single-file pyramidal tiled TIFF or BigTIFF with non-standard
    /// metadata.
    ///
    /// File extensions
    ///     .tiff
    Phillips,
    /// SQLite database containing pyramid tiles and metadata.
    ///
    /// File extensions
    ///     .svslide
    Sakura,
    /// Single-file pyramidal tiled TIFF, with non-standard metadata and
    /// overlaps. Additional files contain more metadata and detailed
    /// overlap info.
    ///
    /// File extensions
    ///     .tif
    Trestle,
    /// Single-file pyramidal tiled BigTIFF, with non-standard metadata
    /// and overlaps.
    ///
    /// File extensions
    ///     .bif, .tif
    Ventana,
    /// Single-file pyramidal tiled TIFF.
    ///
    /// File extensions
    ///     .tif
    GenericTiledTiff,
}

/// The different ways the u8 color values are encoded into a u32 value.
///
/// A successful region read yields a buffer of `u32` with
/// `height * width` elements, where `height` and `width` is the shape (in
/// pixels) of the read region. Each `u32` packs the red, green, blue, and
/// alpha value of one pixel; this enum determines in which order the
/// channels sit within one element.
#[derive(Clone, Debug)]
pub enum WordRepresentation {
    /// From most significant bit to least significant bit:
    /// `[alpha, red, green, blue]`
    BigEndian,
    /// From most significant bit to least significant bit:
    /// `[blue, green, red, alpha]`
    LittleEndian,
}

/// A decoded tile: straight-alpha RGBA bytes, row-major, four bytes per
/// pixel. Produced per request and owned solely by the caller.
pub struct TileImage {
    pub data: Vec<u8>,
    pub width: u32,
    pub height: u32,
}

/// The alpha channel of a packed pixel word: the most significant byte
/// of an `[a, r, g, b]` word, the least significant of a `[b, g, r, a]`
/// word.
pub open spec fn word_alpha(w: u32, repr: WordRepresentation) -> u8 {
    match repr {
        WordRepresentation::BigEndian => (w >> 24) as u8,
        WordRepresentation::LittleEndian => w as u8,
    }
}

/// The red channel of a packed pixel word.
pub open spec fn word_red(w: u32, repr: WordRepresentation) -> u8 {
    match repr {
        WordRepresentation::BigEndian => (w >> 16) as u8,
        WordRepresentation::LittleEndian => (w >> 8) as u8,
    }
}

/// The green channel of a packed pixel word.
pub open spec fn word_green(w: u32, repr: WordRepresentation) -> u8 {
    match repr {
        WordRepresentation::BigEndian => (w >> 8) as u8,
        WordRepresentation::LittleEndian => (w >> 16) as u8,
    }
}

/// The blue channel of a packed pixel word.
pub open spec fn word_blue(w: u32, repr: WordRepresentation) -> u8 {
    match repr {
        WordRepresentation::BigEndian => w as u8,
        WordRepresentation::LittleEndian => (w >> 24) as u8,
    }
}

/// Straight-alpha conversion of one premultiplied color channel: the
/// channel scaled by `255 / alpha`, rounded to the nearest integer (ties
/// away from zero), clamped to 255. A pixel that is fully opaque or fully
/// transparent passes through unchanged.
pub open spec fn unpremultiply(c: u8, a: u8) -> u8 {
    if a == 0 || a == 255 {
        c
    } else {
        min(255, (2 * (c as int) * 255 + a as int) / (2 * a as int)) as u8
    }
}

/// The four straight-alpha RGBA bytes of one packed pixel word.
pub open spec fn decode_word(w: u32, repr: WordRepresentation) -> Seq<u8> {
    seq![
        unpremultiply(word_red(w, repr), word_alpha(w, repr)),
        unpremultiply(word_green(w, repr), word_alpha(w, repr)),
        unpremultiply(word_blue(w, repr), word_alpha(w, repr)),
        word_alpha(w, repr),
    ]
}

/// A whole buffer of packed pixel words decoded into flat RGBA bytes.
pub open spec fn decode_words(buf: Seq<u32>, repr: WordRepresentation) -> Seq<u8> {
    Seq::new(buf.len() * 4, |i: int| decode_word(buf[i / 4], repr)[i % 4])
}

/// Straight-alpha conversion of one channel, computed exactly.
fn unpremultiply_exec(c: u8, a: u8) -> (r: u8)
    ensures
        r == unpremultiply(c, a),
{
    if a == 0 || a == 255 {
        c
    } else {
        let num: u32 = 2 * (c as u32) * 255 + (a as u32);
        let q: u32 = num / (2 * (a as u32));
        if q > 255 {
            255
        } else {
            q as u8
        }
    }
}

/// Decodes a buffer of packed pixel words, as obtained from a region
/// read, into straight-alpha RGBA bytes, reading each word's channels in
/// the order the given representation defines.
///
/// Succeeds exactly when the buffer holds `width * height` words; a
/// buffer of any other size fails with `RenderFailure`.
pub fn decode_buffer(
    buffer: &[u32],
    height: u32,
    width: u32,
    word_representation: WordRepresentation,
) -> (r: Result<TileImage, DeepZoomError>)
    ensures
        (r is Ok) == (buffer@.len() == (width as int) * (height as int)),
        r matches Ok(img) ==> img.width == width && img.height == height && img.data@
            == decode_words(buffer@, word_representation) && img.data@.len() == 4 * buffer@.len(),
        r matches Err(e) ==> e == DeepZoomError::RenderFailure,
{
    let len = buffer.len();
    proof {
        vstd::arithmetic::mul::lemma_mul_upper_bound(
            width as int,
            0xffff_ffff,
            height as int,
            0xffff_ffff,
        );
    }
    let expected: u64 = (width as u64) * (height as u64);
    if len as u64 != expected {
        return Err(DeepZoomError::RenderFailure);
    }
    let mut data: Vec<u8> = Vec::new();
    let mut i: usize = 0;
    while i < len
        invariant
            i <= len,
            len == buffer@.len(),
            data@.len() == 4 * i,
            forall|p: int|
                0 <= p < i ==> data@[4 * p] == decode_word(
                    #[trigger] buffer@[p],
                    word_representation,
                )[0] && data@[4 * p + 1] == decode_word(buffer@[p], word_representation)[1]
                    && data@[4 * p + 2] == decode_word(buffer@[p], word_representation)[2]
                    && data@[4 * p + 3] == decode_word(buffer@[p], word_representation)[3],
        decreases len - i,
    {
        let value = buffer[i];
        let alpha: u8 = match word_representation {
            WordRepresentation::BigEndian => #[verifier::truncate] ((value >> 24) as u8),
            WordRepresentation::LittleEndian => #[verifier::truncate] (value as u8),
        };
        let red: u8 = match word_representation {
            WordRepresentation::BigEndian => #[verifier::truncate] ((value >> 16) as u8),
            WordRepresentation::LittleEndian => #[verifier::truncate] ((value >> 8) as u8),
        };
        let green: u8 = match word_representation {
            WordRepresentation::BigEndian => #[verifier::truncate] ((value >> 8) as u8),
            WordRepresentation::LittleEndian => #[verifier::truncate] ((value >> 16) as u8),
        };
        let blue: u8 = match word_representation {
            WordRepresentation::BigEndian => #[verifier::truncate] (value as u8),
            WordRepresentation::LittleEndian => #[verifier::truncate] ((value >> 24) as u8),
        };
        data.push(unpremultiply_exec(red, alpha));
        data.push(unpremultiply_exec(green, alpha));
        data.push(unpremultiply_exec(blue, alpha));
        data.push(alpha);
        i = i + 1;
    }
    proof {
        assert forall|j: int| 0 <= j < data@.len() implies data@[j] == decode_words(
            buffer@,
            word_representation,
        )[j] by {
            let p = j / 4;
            let k = j % 4;
            vstd::arithmetic::div_mod::lemma_fundamental_div_mod(j, 4);
            vstd::arithmetic::div_mod::lemma_mod_division_less_than_divisor(j, 4);
            assert(j == 4 * p + k);
            assert(0 <= p < buffer@.len());
        }
        assert(data@ =~= decode_words(buffer@, word_representation));
    }
    Ok(TileImage { data, width, height })
}

} // verus!
