//! Scaling an RGBA8 image, done by the `image` crate.
use vstd::prelude::*;

verus! {

/// The bytes of a `width` by `height` RGBA8 image scaled to `new_width` by
/// `new_height` with a triangle (bilinear) filter.
pub uninterp spec fn triangle_resize(width: nat, height: nat, data: Seq<u8>, new_width: nat, new_height: nat) -> Seq<u8>;

/// Relies on `image::imageops::resize` with `FilterType::Triangle`: the result
/// is an image of exactly `new_width` by `new_height` pixels whose bytes
/// depend on the source pixels and the sizes alone. Its working buffer holds
/// `width * new_height` pixels of sixteen bytes, and no buffer can hold more
/// than `isize::MAX` bytes, hence the bounds.
#[verifier::external_body]
pub(crate) fn resize_triangle(width: u32, height: u32, data: &Vec<u8>, new_width: u32, new_height: u32) -> (r: Vec<u8>)
    requires
        data@.len() == width * height * 4,
        new_width > 0,
        new_height > 0,
        width * new_height * 16 <= isize::MAX,
        new_width * new_height * 4 <= isize::MAX,
    ensures
        r@ == triangle_resize(width as nat, height as nat, data@, new_width as nat, new_height as nat),
        r@.len() == new_width * new_height * 4,
{
    let src = image::RgbaImage::from_raw(width, height, data.clone()).unwrap();
    image::imageops::resize(&src, new_width, new_height, image::imageops::FilterType::Triangle).into_raw()
}

} // verus!
