//! Cutting the selected region out of a screenshot.
use vstd::prelude::*;
use crate::frame::{byte_index, Frame, FrameView};
use crate::storage::{file_scheme, strip_leading, strip_prefix_bytes};
use vstd::string::StringSliceAdditionalSpecFns;
use vstd::utf8::encode_utf8;

verus! {

/// The bytes of the `w` by `h` rectangle whose top-left pixel is `(x, y)` in
/// a row-major RGBA8 buffer `width` pixels wide, row by row.
pub open spec fn sub_image_bytes(width: nat, data: Seq<u8>, x: nat, y: nat, w: nat, h: nat) -> Seq<u8> {
    Seq::new(w * h * 4, |i: int| data[byte_index(width, x + (i / 4) % (w as int), y + (i / 4) / (w as int)) + i % 4])
}

/// Relies on `image::imageops::crop_imm` and `SubImage::to_image`: with the
/// rectangle inside the image, the view is that rectangle and `to_image`
/// copies its pixels row by row into a buffer of its own.
#[verifier::external_body]
fn crop_rgba(width: u32, height: u32, data: &Vec<u8>, x: u32, y: u32, w: u32, h: u32) -> (r: Vec<u8>)
    requires
        data@.len() == width * height * 4,
        x + w <= width,
        y + h <= height,
    ensures
        r@ == sub_image_bytes(width as nat, data@, x as nat, y as nat, w as nat, h as nat),
{
    let img = image::RgbaImage::from_raw(width, height, data.clone()).unwrap();
    image::imageops::crop_imm(&img, x, y, w, h).to_image().into_raw()
}

/// The rectangle that a crop request keeps, in physical pixels of a
/// `img_w` by `img_h` image: negative corners move to zero, sizes are cut at
/// the image's edge; `None` when the corner is outside or nothing is left.
pub open spec fn crop_area(img_w: nat, img_h: nat, x: int, y: int, w: int, h: int) -> Option<(nat, nat, nat, nat)> {
    let cx: nat = if x > 0 { x as nat } else { 0 };
    let cy: nat = if y > 0 { y as nat } else { 0 };
    if cx >= img_w || cy >= img_h {
        None
    } else {
        let want_w: nat = if w > 0 { w as nat } else { 0 };
        let want_h: nat = if h > 0 { h as nat } else { 0 };
        let cw: nat = if want_w <= img_w - cx { want_w } else { (img_w - cx) as nat };
        let ch: nat = if want_h <= img_h - cy { want_h } else { (img_h - cy) as nat };
        if cw == 0 || ch == 0 { None } else { Some((cx, cy, cw, ch)) }
    }
}

/// The part of `image` under the rectangle `(x, y, width, height)`, given in
/// its own pixels.
pub fn crop_physical(image: &Frame, x: i32, y: i32, width: i32, height: i32) -> (r: Option<Frame>)
    ensures
        r is Some <==> crop_area(image@.width, image@.height, x as int, y as int, width as int, height as int) is Some,
        r matches Some(f) ==> {
            let a = crop_area(image@.width, image@.height, x as int, y as int, width as int, height as int)->0;
            f@ == (FrameView {
                width: a.2,
                height: a.3,
                data: sub_image_bytes(image@.width, image@.data, a.0, a.1, a.2, a.3),
            })
        },
{
    let img_w = image.width();
    let img_h = image.height();
    let cx: u32 = if x > 0 { x as u32 } else { 0 };
    let cy: u32 = if y > 0 { y as u32 } else { 0 };
    if cx >= img_w || cy >= img_h {
        return None;
    }
    let want_w: u32 = if width > 0 { width as u32 } else { 0 };
    let want_h: u32 = if height > 0 { height as u32 } else { 0 };
    let cw = if want_w <= img_w - cx { want_w } else { img_w - cx };
    let ch = if want_h <= img_h - cy { want_h } else { img_h - cy };
    if cw == 0 || ch == 0 {
        return None;
    }
    let bytes = crop_rgba(img_w, img_h, image.as_raw(), cx, cy, cw, ch);
    proof {
        assert(cw * ch * 4 <= img_w * img_h * 4) by (nonlinear_arith)
            requires cw <= img_w, ch <= img_h;
    }
    Frame::from_raw(cw, ch, bytes)
}

/// The bytes of `image://minnow/preview`, the address of the last full-screen capture.
pub open spec fn preview_address() -> Seq<u8> {
    seq![
        105u8, 109u8, 97u8, 103u8, 101u8, 58u8, 47u8, 47u8, 109u8, 105u8, 110u8, 110u8, 111u8, 119u8, 47u8,
        112u8, 114u8, 101u8, 118u8, 105u8, 101u8, 119u8,
    ]
}

/// Where the image behind an address comes from.
pub struct ImageSource {
    /// Try the last full-screen capture first.
    pub use_last_capture: bool,
    /// The file to read otherwise.
    pub file: String,
}

/// Actions on captured regions.
pub struct CaptureService;

impl CaptureService {
    /// The source of the image an address names: an empty address or the
    /// preview address means the last capture; the file is the address
    /// without its `file://` scheme.
    pub fn image_source(path: &str) -> (r: ImageSource)
        ensures
            r.use_last_capture == (path.spec_bytes().len() == 0 || (path.spec_bytes().len() >= preview_address().len()
                && path.spec_bytes().subrange(0, preview_address().len() as int) == preview_address())),
            encode_utf8(r.file@) == strip_prefix_bytes(path.spec_bytes(), file_scheme()),
    {
        let b = path.as_bytes();
        let preview: [u8; 22] = [
            105u8, 109u8, 97u8, 103u8, 101u8, 58u8, 47u8, 47u8, 109u8, 105u8, 110u8, 110u8, 111u8, 119u8, 47u8,
            112u8, 114u8, 101u8, 118u8, 105u8, 101u8, 119u8,
        ];
        assert(preview@ =~= preview_address());
        let mut cached = b.len() == 0;
        if b.len() >= 22 {
            let mut same = true;
            let mut i: usize = 0;
            while i < 22
                invariant
                    i <= 22,
                    b@.len() >= 22,
                    preview@ == preview_address(),
                    same <==> forall|k: int| 0 <= k < i ==> b@[k] == preview@[k],
                decreases 22 - i,
            {
                if b[i] != preview[i] {
                    same = false;
                }
                i = i + 1;
            }
            if same {
                assert(b@.subrange(0, 22) =~= preview_address());
                cached = true;
            } else {
                assert(b@.subrange(0, 22) != preview_address()) by {
                    let k = choose|k: int| 0 <= k < 22 && b@[k] != preview@[k];
                    assert(b@.subrange(0, 22)[k] != preview_address()[k]);
                }
            }
        }
        let scheme: [u8; 7] = [102u8, 105u8, 108u8, 101u8, 58u8, 47u8, 47u8];
        assert(scheme@ =~= file_scheme());
        let file = strip_leading(path, scheme.as_slice()).to_owned();
        ImageSource { use_last_capture: cached, file }
    }
}

} // verus!
