//! PNG encoding of a capture, optionally recompressed, done by the `image`
//! and `oxipng` crates.
use vstd::prelude::*;
use crate::frame::Frame;
use image::ImageEncoder;

verus! {

/// The PNG file that encodes a `width` by `height` RGBA8 image, or `None`
/// where the encoder refuses it.
pub uninterp spec fn png_encoding(width: nat, height: nat, data: Seq<u8>) -> Option<Seq<u8>>;

/// The PNG file that oxipng's level-0 optimisation makes of a `width` by
/// `height` RGBA8 image, all ancillary chunks stripped and not interlaced, or
/// `None` where it refuses the image.
pub uninterp spec fn optimized_png(width: nat, height: nat, data: Seq<u8>) -> Option<Seq<u8>>;

pub open spec fn bytes_view(r: Option<Vec<u8>>) -> Option<Seq<u8>> {
    match r {
        Some(b) => Some(b@),
        None => None,
    }
}

/// What is stored for an image: the optimised file when asked for and the
/// optimiser succeeds, else the plain encoding.
pub open spec fn capture_file(width: nat, height: nat, data: Seq<u8>, compress: bool) -> Option<Seq<u8>> {
    if compress && optimized_png(width, height, data) is Some {
        optimized_png(width, height, data)
    } else {
        png_encoding(width, height, data)
    }
}

/// Relies on `image::codecs::png::PngEncoder::write_image` with
/// `ExtendedColorType::Rgba8`: on success the bytes written are the PNG file
/// of the image; success and the bytes depend on its size and pixels alone.
/// It asserts that the buffer holds exactly four bytes per pixel.
#[verifier::external_body]
fn encode_png(width: u32, height: u32, data: &Vec<u8>) -> (r: Option<Vec<u8>>)
    requires
        data@.len() == width * height * 4,
    ensures
        bytes_view(r) == png_encoding(width as nat, height as nat, data@),
{
    let mut out: Vec<u8> = Vec::new();
    let encoder = image::codecs::png::PngEncoder::new(&mut out);
    encoder.write_image(data, width, height, image::ExtendedColorType::Rgba8).ok()?;
    Some(out)
}

/// Relies on `oxipng::RawImage::new` (RGBA, eight bits) and
/// `RawImage::create_optimized_png` with `Options::from_preset(0)`, chunks
/// stripped and interlacing off: without the `parallel` feature and without
/// a timeout the trials run one after the other, so whether it succeeds and
/// the file it returns depend on the image alone. `RawImage::new` multiplies
/// the dimensions without an overflow check, hence the bound on the buffer.
#[verifier::external_body]
fn optimize_png(width: u32, height: u32, data: &Vec<u8>) -> (r: Option<Vec<u8>>)
    requires
        data@.len() == width * height * 4,
    ensures
        bytes_view(r) == optimized_png(width as nat, height as nat, data@),
{
    let mut options = oxipng::Options::from_preset(0);
    options.strip = oxipng::StripChunks::All;
    options.interlace = None;
    let raw = oxipng::RawImage::new(width, height, oxipng::ColorType::RGBA, oxipng::BitDepth::Eight, data.clone()).ok()?;
    raw.create_optimized_png(&options).ok()
}

/// The PNG file to store for `image`: the optimised encoding when `compress`
/// and the optimiser succeeds, else the plain encoding; `None` when no
/// encoding succeeded.
pub fn encode_capture(image: &Frame, compress: bool) -> (r: Option<Vec<u8>>)
    ensures
        bytes_view(r) == capture_file(image@.width, image@.height, image@.data, compress),
{
    let w = image.width();
    let h = image.height();
    let data = image.as_raw();
    if compress {
        if let Some(b) = optimize_png(w, h, data) {
            return Some(b);
        }
    }
    encode_png(w, h, data)
}

} // verus!
