//! An RGBA8 pixel buffer with its dimensions.
use vstd::prelude::*;

verus! {

/// What a frame holds: its dimensions and its bytes, four per pixel, row by row.
pub ghost struct FrameView {
    pub width: nat,
    pub height: nat,
    pub data: Seq<u8>,
}

impl FrameView {
    /// Four bytes for each pixel.
    pub open spec fn wf(&self) -> bool {
        self.data.len() == self.width * self.height * 4
    }
}

/// Index of the first byte of pixel `(x, y)` in a row-major RGBA8 buffer.
pub open spec fn byte_index(width: nat, x: int, y: int) -> int {
    (y * width + x) * 4
}

/// The bytes of rows `[y0, y0 + n)` of a frame.
pub open spec fn rows_of(f: FrameView, y0: int, n: int) -> Seq<u8> {
    f.data.subrange(y0 * f.width * 4, (y0 + n) * f.width * 4)
}

/// An all-zero `width` by `height` image.
pub open spec fn blank_view(width: nat, height: nat) -> FrameView {
    FrameView { width, height, data: Seq::new(width * height * 4, |i: int| 0u8) }
}

/// Rows `[src_y, src_y + n)` and `[dest_y, dest_y + n)` lie inside `src` and `dest`.
pub open spec fn rows_in_range(dest: FrameView, src: FrameView, src_y: nat, dest_y: nat, n: nat) -> bool {
    src_y + n <= src.height && dest_y + n <= dest.height
}

/// `dest` with rows `[dest_y, dest_y + n)` replaced by rows `[src_y, src_y + n)`
/// of `src` (of the same width); `dest` as it is when the rows do not lie
/// inside both images.
pub open spec fn pasted(dest: FrameView, src: FrameView, src_y: nat, dest_y: nat, n: nat) -> FrameView {
    if rows_in_range(dest, src, src_y, dest_y, n) {
        FrameView {
            data: dest.data.subrange(0, (dest_y * dest.width * 4) as int) + rows_of(src, src_y as int, n as int)
                + dest.data.subrange(((dest_y + n) * dest.width * 4) as int, dest.data.len() as int),
            ..dest
        }
    } else {
        dest
    }
}

/// An RGBA8 image: `data` holds `width * height * 4` bytes, row by row.
pub struct Frame {
    width: u32,
    height: u32,
    data: Vec<u8>,
}

impl View for Frame {
    type V = FrameView;

    closed spec fn view(&self) -> FrameView {
        FrameView { width: self.width as nat, height: self.height as nat, data: self.data@ }
    }
}

/// `x < w` and `y < h` put the three colour bytes of `(x, y)` inside a `w * h * 4` buffer.
pub proof fn lemma_pixel_in_bounds(w: nat, h: nat, x: int, y: int)
    requires
        0 <= x < w,
        0 <= y < h,
    ensures
        0 <= byte_index(w, x, y),
        byte_index(w, x, y) + 3 < w * h * 4,
        byte_index(w, x, y) + 3 < (y + 1) * w * 4,
        y * w * 4 <= byte_index(w, x, y),
{
    assert(0 <= (y * w + x) * 4) by (nonlinear_arith)
        requires 0 <= x, 0 <= y;
    assert((y * w + x) * 4 + 3 < (y + 1) * w * 4) by (nonlinear_arith)
        requires 0 <= x < w, 0 <= y;
    assert((y + 1) * w * 4 <= w * h * 4) by (nonlinear_arith)
        requires 0 <= y < h;
    assert(y * w * 4 <= (y * w + x) * 4) by (nonlinear_arith)
        requires 0 <= x;
}

/// `width * height * per_pixel` bytes can be allocated (a buffer holds at
/// most `isize::MAX` bytes).
pub fn buffer_fits(width: u32, height: u32, per_pixel: u32) -> (r: bool)
    ensures
        r == (width * height * per_pixel <= isize::MAX),
{
    proof {
        assert(width * height * per_pixel <= 4294967295 * 4294967295 * 4294967295) by (nonlinear_arith)
            requires width <= 4294967295, height <= 4294967295, per_pixel <= 4294967295;
        assert(width * height <= 4294967295 * 4294967295) by (nonlinear_arith)
            requires width <= 4294967295, height <= 4294967295;
    }
    (width as u128) * (height as u128) * (per_pixel as u128) <= isize::MAX as u128
}

impl Frame {
    #[verifier::type_invariant]
    spec fn well_formed(&self) -> bool {
        &&& self.data@.len() == self.width * self.height * 4
        &&& self.width * self.height * 4 <= isize::MAX
    }

    /// Takes `data` as the pixels of a `width` by `height` image; `None` when
    /// its length is not `width * height * 4`.
    pub fn from_raw(width: u32, height: u32, data: Vec<u8>) -> (r: Option<Frame>)
        ensures
            r is Some <==> data@.len() == width * height * 4 && data@.len() <= isize::MAX,
            r matches Some(f) ==> f@ == (FrameView { width: width as nat, height: height as nat, data: data@ }),
    {
        if !buffer_fits(width, height, 4) {
            return None;
        }
        let len = (width as usize) * (height as usize) * 4;
        if data.len() == len {
            Some(Frame { width, height, data })
        } else {
            None
        }
    }

    /// A `width` by `height` image with every byte zero; `None` when it is too
    /// large to allocate.
    pub fn blank(width: u32, height: u32) -> (r: Option<Frame>)
        ensures
            r is Some <==> width * height * 4 <= isize::MAX,
            r matches Some(f) ==> f@ == blank_view(width as nat, height as nat),
    {
        if !buffer_fits(width, height, 4) {
            return None;
        }
        let len = (width as usize) * (height as usize) * 4;
        let data: Vec<u8> = vec![0u8; len];
        assert(data@ =~= blank_view(width as nat, height as nat).data);
        Some(Frame { width, height, data })
    }

    /// Width in pixels.
    pub fn width(&self) -> (r: u32)
        ensures
            r == self@.width,
            self@.data.len() == self@.width * self@.height * 4,
            self@.data.len() <= isize::MAX,
    {
        proof { use_type_invariant(self); }
        self.width
    }

    /// Height in pixels.
    pub fn height(&self) -> (r: u32)
        ensures
            r == self@.height,
            self@.data.len() == self@.width * self@.height * 4,
            self@.data.len() <= isize::MAX,
    {
        proof { use_type_invariant(self); }
        self.height
    }

    /// The pixel bytes, row by row.
    pub fn as_raw(&self) -> (r: &Vec<u8>)
        ensures
            r@ == self@.data,
            self@.data.len() == self@.width * self@.height * 4,
            self@.data.len() <= isize::MAX,
    {
        proof { use_type_invariant(self); }
        &self.data
    }

    /// The first `n` rows as an image of their own.
    pub fn top_rows(&self, n: u32) -> (r: Frame)
        requires
            n <= self@.height,
        ensures
            r@ == (FrameView { width: self@.width, height: n as nat, data: rows_of(self@, 0, n as int) }),
    {
        proof { use_type_invariant(self); }
        let ghost v = self@;
        let _ = self.data.len();
        proof {
            assert(self.width * n * 4 <= self.width * self.height * 4) by (nonlinear_arith)
                requires n <= self.height;
            assert(self.width * n <= self.width * n * 4) by (nonlinear_arith);
            assert(n * self.width * 4 == self.width * n * 4) by (nonlinear_arith);
            assert(0 * self.width * 4 == 0);
        }
        let len = (self.width as usize) * (n as usize) * 4;
        let mut data: Vec<u8> = Vec::with_capacity(len);
        let mut i: usize = 0;
        while i < len
            invariant
                i <= len,
                len <= self.data@.len(),
                data@ =~= self.data@.subrange(0, i as int),
            decreases len - i,
        {
            data.push(self.data[i]);
            i = i + 1;
        }
        assert(rows_of(v, 0, n as int) =~= self.data@.subrange(0, len as int));
        Frame { width: self.width, height: n, data }
    }

    /// `dest` with rows `[dest_y, dest_y + n)` replaced by rows
    /// `[src_y, src_y + n)` of `src`; `dest` unchanged when those rows do not
    /// lie inside both images.
    pub fn paste_rows(dest: Frame, src: &Frame, src_y: u32, dest_y: u32, n: u32) -> (r: Frame)
        requires
            src@.width == dest@.width,
        ensures
            r@ == pasted(dest@, src@, src_y as nat, dest_y as nat, n as nat),
            r@.width == dest@.width,
            r@.height == dest@.height,
            rows_in_range(dest@, src@, src_y as nat, dest_y as nat, n as nat) ==> r@.data
                == dest@.data.subrange(0, dest_y * dest@.width * 4) + rows_of(src@, src_y as int, n as int)
                + dest@.data.subrange((dest_y + n) * dest@.width * 4, dest@.data.len() as int),
            !rows_in_range(dest@, src@, src_y as nat, dest_y as nat, n as nat) ==> r@ == dest@,
    {
        proof {
            use_type_invariant(&dest);
            use_type_invariant(src);
        }
        if src_y as u64 + n as u64 > src.height as u64 || dest_y as u64 + n as u64 > dest.height as u64 {
            return dest;
        }
        let ghost d0 = dest@;
        let Frame { width, height, mut data } = dest;
        let w = width as usize;
        let ghost orig = data@;
        let _ = data.len();
        let _ = src.data.len();
        proof {
            assert(src_y * w <= src_y * w * 4) by (nonlinear_arith);
            assert(dest_y * w <= dest_y * w * 4) by (nonlinear_arith);
            assert(n * w <= n * w * 4) by (nonlinear_arith);
            assert((src_y + n) * w * 4 <= src.width * src.height * 4) by (nonlinear_arith)
                requires src_y + n <= src.height, w == src.width;
            assert((dest_y + n) * w * 4 <= w * height * 4) by (nonlinear_arith)
                requires dest_y + n <= height;
            assert(src_y * w * 4 <= (src_y + n) * w * 4) by (nonlinear_arith);
            assert(dest_y * w * 4 <= (dest_y + n) * w * 4) by (nonlinear_arith);
            assert((src_y + n) * w * 4 == src_y * w * 4 + n * w * 4) by (nonlinear_arith);
            assert((dest_y + n) * w * 4 == dest_y * w * 4 + n * w * 4) by (nonlinear_arith);
        }
        let s0 = (src_y as usize) * w * 4;
        let t0 = (dest_y as usize) * w * 4;
        let len = (n as usize) * w * 4;
        let mut i: usize = 0;
        while i < len
            invariant
                i <= len,
                s0 + len <= src.data@.len(),
                t0 + len <= orig.len(),
                src.data@.len() <= usize::MAX,
                orig.len() <= usize::MAX,
                data@.len() == orig.len(),
                forall|k: int| 0 <= k < orig.len() ==> #[trigger] data@[k]
                    == if t0 <= k < t0 + i { src.data@[s0 + k - t0] } else { orig[k] },
            decreases len - i,
        {
            data.set(t0 + i, src.data[s0 + i]);
            i = i + 1;
        }
        assert(data@ =~= orig.subrange(0, t0 as int) + src.data@.subrange(s0 as int, s0 + len)
            + orig.subrange(t0 + len, orig.len() as int));
        assert(rows_of(src@, src_y as int, n as int) == src.data@.subrange(s0 as int, s0 + len));
        Frame { width, height, data }
    }

    /// Gives the pixel bytes back.
    pub fn into_raw(self) -> (r: Vec<u8>)
        ensures
            r@ == self@.data,
    {
        self.data
    }
}

} // verus!
