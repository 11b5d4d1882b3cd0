//! Trusted wrappers around the `image` crate: decoding plus exact-dimension
//! resampling on the way in, PNG serialization on the way out.

use vstd::prelude::*;

use crate::buffer::PixelBuffer;
use crate::pixel::Pixel;

use image::ImageEncoder;

verus! {

/// The RGBA8 pixel rows, row-major, that decoding `bytes` (format sniffed
/// from the content) and resampling to exactly `width` x `height` with the
/// three-lobe Lanczos filter produce; `None` when the bytes are not a
/// recognizable, well-formed image. The result depends on the byte content
/// and the target dimensions alone.
pub uninterp spec fn decoded_resized(bytes: Seq<u8>, width: nat, height: nat) -> Option<
    Seq<Pixel>,
>;

/// The PNG serialization of a `width` x `height` RGBA8 pixel buffer; `None`
/// when the encoder reports a failure. The result depends on the dimensions
/// and the pixels alone.
pub uninterp spec fn png_encoding(width: nat, height: nat, pixels: Seq<Pixel>) -> Option<
    Seq<u8>,
>;

/// Relies on `image::load_from_memory` (decoding is a pure function of the
/// byte content; it fails exactly when no supported format can be sniffed
/// and parsed), `image::DynamicImage::resize_exact` with
/// `FilterType::Lanczos3` (per its documentation the result has exactly the
/// requested dimensions and the aspect ratio is not preserved) and
/// `image::DynamicImage::to_rgba8` (pure conversion to four 8-bit channels).
/// The whole chain is deterministic in `bytes`, `width` and `height`.
#[verifier::external_body]
pub(crate) fn decode_and_resize(bytes: &[u8], width: u32, height: u32) -> (out: Option<
    PixelBuffer,
>)
    requires
        1 <= width,
        1 <= height,
    ensures
        out is Some <==> decoded_resized(bytes@, width as nat, height as nat) is Some,
        out is Some ==> {
            let p = out.unwrap();
            &&& p.wf()
            &&& p.width == width as usize
            &&& p.height == height as usize
            &&& p.pixels@ == decoded_resized(bytes@, width as nat, height as nat).unwrap()
        },
{
    let img = match image::load_from_memory(bytes) {
        Ok(i) => i,
        Err(_) => return None,
    };
    let resized = img.resize_exact(width, height, image::imageops::FilterType::Lanczos3);
    let raw = resized.to_rgba8().into_raw();
    let pixels: Vec<Pixel> = raw
        .chunks_exact(4)
        .map(|c| Pixel { r: c[0], g: c[1], b: c[2], a: c[3] })
        .collect();
    Some(PixelBuffer { width: width as usize, height: height as usize, pixels })
}

/// Relies on `image::codecs::png::PngEncoder::write_image` with
/// `ColorType::Rgba8`: it serializes the raw bytes of a well-formed buffer
/// as a PNG into the `Vec` writer, deterministically in the dimensions and
/// pixel data, and returns an error value on serialization failure. Its
/// length assertion cannot fire because a well-formed buffer hands it
/// exactly `4 * width * height` bytes.
#[verifier::external_body]
pub(crate) fn encode_png(buf: &PixelBuffer) -> (out: Option<Vec<u8>>)
    requires
        buf.wf(),
        1 <= buf.width,
        1 <= buf.height,
        buf.width as int <= u32::MAX as int,
        buf.height as int <= u32::MAX as int,
    ensures
        out is Some <==> png_encoding(buf.width as nat, buf.height as nat, buf.pixels@) is Some,
        out is Some ==> out.unwrap()@ == png_encoding(
            buf.width as nat,
            buf.height as nat,
            buf.pixels@,
        ).unwrap(),
{
    let mut raw: Vec<u8> = Vec::with_capacity(buf.pixels.len() * 4);
    for p in buf.pixels.iter() {
        raw.extend_from_slice(&[p.r, p.g, p.b, p.a]);
    }
    let mut encoded: Vec<u8> = Vec::new();
    let encoder = image::codecs::png::PngEncoder::new(&mut encoded);
    match encoder.write_image(&raw, buf.width as u32, buf.height as u32, image::ColorType::Rgba8) {
        Ok(()) => Some(encoded),
        Err(_) => None,
    }
}

} // verus!
