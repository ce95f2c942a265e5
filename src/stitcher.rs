//! The scroll stitcher: grows one tall canvas out of a stream of overlapping frames.
use vstd::prelude::*;
use crate::align::{
    active_columns, best_overlap, detect_fixed_bands, find_optimal_overlap, find_seam, fixed_bands,
    lemma_scan_bound, lemma_seam_row_bound, masked_signatures, motion_mask, overlap_confirmed, overlap_limit,
    sat_sub, seam_row, sig_view, signatures, verify_overlap,
};
use crate::frame::{blank_view, buffer_fits, pasted, rows_of, Frame, FrameView};
use crate::resample::{resize_triangle, triangle_resize};

verus! {

/// What one call of `ScrollStitcher::process_frame` did.
#[derive(Debug, PartialEq, Eq, Structural, Clone, Copy)]
pub enum StitchResult {
    /// The frame extended (or re-positioned) the canvas.
    Success,
    /// No net movement: only the reference frame was refreshed.
    Stationary,
    /// The frame could not be aligned; nothing changed.
    Failure,
}

/// Numeric thresholds of one stitching session.
#[derive(Debug, Clone, Copy)]
pub struct StitchConfig {
    pub min_overlap: u32,
    pub min_scroll_threshold: u32,
    pub overlap_avg_threshold: u64,
    pub motion_scan_step: usize,
    pub motion_threshold_divisor: u64,
    pub fixed_diff_percent: u64,
    pub verify_pixel_diff: u32,
    pub verify_step_divisor: usize,
    pub seam_margin_divisor: u32,
}

impl StitchConfig {
    /// Steps and divisors are positive, and an overlap is at least one row.
    pub open spec fn valid(&self) -> bool {
        &&& self.min_overlap > 0
        &&& self.motion_scan_step > 0
        &&& self.motion_threshold_divisor > 0
        &&& self.verify_step_divisor > 0
        &&& self.seam_margin_divisor > 0
    }

    /// The default thresholds.
    pub fn default_config() -> (r: StitchConfig)
        ensures
            r == default_stitch_config(),
            r.valid(),
    {
        StitchConfig {
            min_overlap: 20,
            min_scroll_threshold: 5,
            overlap_avg_threshold: 500,
            motion_scan_step: 8,
            motion_threshold_divisor: 2,
            fixed_diff_percent: 5,
            verify_pixel_diff: 80,
            verify_step_divisor: 20,
            seam_margin_divisor: 4,
        }
    }
}

pub open spec fn default_stitch_config() -> StitchConfig {
    StitchConfig {
        min_overlap: 20,
        min_scroll_threshold: 5,
        overlap_avg_threshold: 500,
        motion_scan_step: 8,
        motion_threshold_divisor: 2,
        fixed_diff_percent: 5,
        verify_pixel_diff: 80,
        verify_step_divisor: 20,
        seam_margin_divisor: 4,
    }
}

impl Default for StitchConfig {
    fn default() -> (r: StitchConfig)
        ensures
            r == default_stitch_config(),
    {
        StitchConfig::default_config()
    }
}

/// How a new frame relates to the previous one.
pub ghost enum Alignment {
    /// It cannot be placed.
    Unaligned,
    /// It shows no net movement.
    Still,
    /// The user scrolled back up by `delta` rows.
    Back { delta: nat, bottom: nat },
    /// The user scrolled down: drop `trim` rows of the canvas, then append the
    /// frame's rows from `start` on.
    Ahead { trim: nat, start: nat, bottom: nat },
}

/// The alignment of `next` against `prev` under `cfg`.
pub open spec fn align_frames(prev: FrameView, next: FrameView, cfg: StitchConfig) -> Alignment {
    if prev.width != next.width {
        Alignment::Unaligned
    } else {
        let cols = active_columns(prev, next, cfg);
        if cols.len() == 0 {
            Alignment::Still
        } else {
            let sp = signatures(prev, cols);
            let sn = signatures(next, cols);
            let bands = fixed_bands(sp, sn, cfg.fixed_diff_percent as nat);
            let top = bands.0;
            let bottom = bands.1;
            let vp = sat_sub(prev.height as int, (top + bottom) as int);
            let vn = sat_sub(next.height as int, (top + bottom) as int);
            if vp < cfg.min_overlap || vn < cfg.min_overlap {
                Alignment::Unaligned
            } else {
                let best = best_overlap(sp, sn, top, bottom, cfg);
                let ov = best.0;
                let reverse = best.1;
                if ov == 0 || !overlap_confirmed(prev, next, cols, cfg, ov, reverse, top, bottom) {
                    Alignment::Unaligned
                } else {
                    let delta = sat_sub(vp as int, ov as int);
                    if delta < cfg.min_scroll_threshold {
                        Alignment::Still
                    } else if reverse {
                        Alignment::Back { delta, bottom }
                    } else {
                        let cut = seam_row(next, cols, cfg, ov, top);
                        Alignment::Ahead { trim: sat_sub(ov as int, cut as int), start: top + cut, bottom }
                    }
                }
            }
        }
    }
}

/// What a stitcher holds, as seen from outside.
pub ghost struct StitcherView {
    pub config: StitchConfig,
    /// A first frame has been taken in.
    pub started: bool,
    /// Width of the canvas.
    pub width: nat,
    /// Rows of the canvas that hold content.
    pub valid_height: nat,
    /// The bytes of those rows.
    pub content: Seq<u8>,
    /// The whole canvas, its height being the rows allocated.
    pub canvas: FrameView,
    /// The frame that the next one is compared against.
    pub last_frame: FrameView,
    /// Rows at the tail of the content that are a fixed footer.
    pub footer: nat,
}

impl StitcherView {
    /// The content fills exactly the valid rows, and the reference frame is
    /// as wide as the canvas.
    pub open spec fn consistent(&self) -> bool {
        &&& self.config.valid()
        &&& self.started ==> {
            &&& self.last_frame.width == self.width
            &&& self.content.len() == row_bytes(self.width, self.valid_height)
            &&& self.canvas.width == self.width
            &&& self.valid_height <= self.canvas.height
        }
        &&& !self.started ==> self.valid_height == 0 && self.footer == 0
    }
}

/// The bytes of `rows` rows of width `width`.
pub open spec fn row_bytes(width: nat, rows: nat) -> nat {
    rows * width * 4
}

/// Rows allocated for a canvas started with a frame `width` by `height`:
/// three times the frame's height where that can be allocated, else its height.
pub open spec fn initial_capacity(width: nat, height: nat) -> nat {
    if 3 * height <= u32::MAX && width * (3 * height) * 4 <= isize::MAX { 3 * height } else { height }
}

/// Rows allocated when `total` rows no longer fit in `cap`: twice the old
/// capacity or `total` plus 2000, whichever is larger, where that can be
/// allocated, else exactly `total`.
pub open spec fn grown_capacity(width: nat, cap: nat, total: nat) -> nat {
    let want = if 2 * cap >= total + 2000 { 2 * cap } else { total + 2000 };
    if want <= u32::MAX && width * want * 4 <= isize::MAX { want } else { total }
}

/// A forward scroll: the canvas keeps its content up to the footer less
/// `trim` rows, then takes the rows of `f` from `start` on; it fails when the
/// trim reaches past the content or the result cannot be addressed.
pub open spec fn extend_step(s: StitcherView, f: FrameView, trim: nat, start: nat, bottom: nat) -> (StitcherView, StitchResult) {
    let content_end = sat_sub(s.valid_height as int, s.footer as int);
    if trim > content_end {
        (s, StitchResult::Failure)
    } else {
        let keep = (content_end - trim) as nat;
        let added = sat_sub(f.height as int, start as int);
        let total = keep + added;
        if total > u32::MAX || row_bytes(s.width, total) > isize::MAX {
            (s, StitchResult::Failure)
        } else {
            let cap = s.canvas.height;
            let base = if total > cap {
                pasted(blank_view(s.width, grown_capacity(s.width, cap, total)), s.canvas, 0, 0, keep)
            } else {
                s.canvas
            };
            (StitcherView {
                valid_height: total,
                content: s.content.subrange(0, row_bytes(s.width, keep) as int)
                    + rows_of(f, start as int, added as int),
                canvas: pasted(base, f, start, keep, added),
                last_frame: f,
                footer: bottom,
                ..s
            }, StitchResult::Success)
        }
    }
}

/// The effect of `process_frame(f)` on a stitcher in state `s`.
pub open spec fn stitch_step(s: StitcherView, f: FrameView) -> (StitcherView, StitchResult) {
    if !s.started {
        (StitcherView {
            started: true,
            width: f.width,
            valid_height: f.height,
            content: f.data,
            canvas: pasted(blank_view(f.width, initial_capacity(f.width, f.height)), f, 0, 0, f.height),
            last_frame: f,
            footer: 0,
            ..s
        }, StitchResult::Success)
    } else {
        match align_frames(s.last_frame, f, s.config) {
            Alignment::Unaligned => (s, StitchResult::Failure),
            Alignment::Still => (StitcherView { last_frame: f, ..s }, StitchResult::Stationary),
            Alignment::Back { delta, bottom } => {
                let h = sat_sub(s.valid_height as int, delta as int);
                (StitcherView {
                    valid_height: h,
                    content: s.content.subrange(0, row_bytes(s.width, h) as int),
                    last_frame: f,
                    footer: bottom,
                    ..s
                }, StitchResult::Success)
            },
            Alignment::Ahead { trim, start, bottom } => extend_step(s, f, trim, start, bottom),
        }
    }
}

/// Height of a thumbnail `target_width` pixels wide of a `width` by `height`
/// image, in proportion and rounded down.
pub open spec fn thumbnail_height(width: nat, height: nat, target_width: nat) -> nat {
    if width == 0 { 0 } else { height * target_width / width }
}

/// The scaling of a `width` by `height` image to `tw` by `th` can be addressed in memory.
pub open spec fn thumbnail_fits(width: nat, tw: nat, th: nat) -> bool {
    &&& th <= u32::MAX
    &&& width * th * 16 <= isize::MAX
    &&& tw * th * 4 <= isize::MAX
}

/// What `make_thumbnail(target_width)` returns for a stitcher in state `s`.
pub open spec fn thumbnail_of(s: StitcherView, target_width: nat) -> Option<FrameView> {
    let th = thumbnail_height(s.width, s.valid_height, target_width);
    if !s.started || s.valid_height == 0 || s.width == 0 || th == 0 || !thumbnail_fits(s.width, target_width, th) {
        None
    } else {
        Some(FrameView {
            width: target_width,
            height: th,
            data: triangle_resize(s.width, s.valid_height, s.content, target_width, th),
        })
    }
}

/// What `current_image()` returns for a stitcher in state `s`: the whole
/// canvas and the number of its rows that hold content.
pub open spec fn current_of(s: StitcherView) -> Option<(FrameView, nat)> {
    if s.started { Some((s.canvas, s.valid_height)) } else { None }
}

/// What `get_final_image()` returns for a stitcher in state `s`.
pub open spec fn final_image_of(s: StitcherView) -> Option<FrameView> {
    if !s.started || s.valid_height == 0 || s.width == 0 {
        None
    } else {
        Some(FrameView { width: s.width, height: s.valid_height, data: s.content })
    }
}

/// Assembles one tall image out of overlapping frames of a scrolling region.
pub struct ScrollStitcher {
    canvas: Option<Frame>,
    valid_height: u32,
    last_frame: Option<Frame>,
    last_footer_height: u32,
    config: StitchConfig,
}

impl View for ScrollStitcher {
    type V = StitcherView;

    closed spec fn view(&self) -> StitcherView {
        let w = match self.canvas {
            Some(c) => c@.width,
            None => 0,
        };
        StitcherView {
            config: self.config,
            started: self.canvas is Some,
            width: w,
            valid_height: self.valid_height as nat,
            content: match self.canvas {
                Some(c) => c@.data.subrange(0, row_bytes(w, self.valid_height as nat) as int),
                None => Seq::empty(),
            },
            canvas: match self.canvas {
                Some(c) => c@,
                None => FrameView { width: 0, height: 0, data: Seq::empty() },
            },
            last_frame: match self.last_frame {
                Some(f) => f@,
                None => FrameView { width: 0, height: 0, data: Seq::empty() },
            },
            footer: self.last_footer_height as nat,
        }
    }
}

impl ScrollStitcher {
    #[verifier::type_invariant]
    spec fn well_formed(&self) -> bool {
        &&& self.config.valid()
        &&& (self.canvas is Some <==> self.last_frame is Some)
        &&& (self.canvas matches Some(c) ==> {
            &&& self.valid_height <= c@.height
            &&& c@.data.len() == c@.width * c@.height * 4
            &&& self.last_frame->0@.width == c@.width
        })
        &&& (self.canvas is None ==> self.valid_height == 0 && self.last_footer_height == 0)
    }
}

/// An alignment as computed, in machine integers.
enum Placement {
    Unaligned,
    Still,
    Back { delta: u32, bottom: u32 },
    Ahead { trim: u32, start: u32, bottom: u32 },
}

spec fn placement_view(p: Placement) -> Alignment {
    match p {
        Placement::Unaligned => Alignment::Unaligned,
        Placement::Still => Alignment::Still,
        Placement::Back { delta, bottom } => Alignment::Back { delta: delta as nat, bottom: bottom as nat },
        Placement::Ahead { trim, start, bottom } => Alignment::Ahead {
            trim: trim as nat,
            start: start as nat,
            bottom: bottom as nat,
        },
    }
}

/// Aligns `next` against `prev`: motion mask, signatures, fixed bands,
/// overlap search, pixel check and seam.
fn analyze(prev: &Frame, next: &Frame, cfg: &StitchConfig) -> (r: Placement)
    requires
        cfg.valid(),
    ensures
        placement_view(r) == align_frames(prev@, next@, *cfg),
        r matches Placement::Ahead { start, .. } ==> start <= next@.height,
{
    let w = prev.width();
    if w != next.width() {
        return Placement::Unaligned;
    }
    let cols = motion_mask(prev, next, cfg);
    if cols.len() == 0 {
        return Placement::Still;
    }
    let sp = masked_signatures(prev, &cols);
    let sn = masked_signatures(next, &cols);
    assert(sig_view(sp@) =~= signatures(prev@, cols@));
    assert(sig_view(sn@) =~= signatures(next@, cols@));
    let hp = prev.height();
    let hn = next.height();
    let (top, bottom) = detect_fixed_bands(&sp, &sn, cfg);
    let fixed = top + bottom;
    let vp = hp.saturating_sub(fixed);
    let vn = hn.saturating_sub(fixed);
    if vp < cfg.min_overlap || vn < cfg.min_overlap {
        return Placement::Unaligned;
    }
    let (ov, reverse) = find_optimal_overlap(&sp, &sn, top, bottom, cfg);
    if ov == 0 {
        return Placement::Unaligned;
    }
    if !verify_overlap(prev, next, ov, reverse, top, bottom, &cols, cfg) {
        return Placement::Unaligned;
    }
    let delta = vp.saturating_sub(ov);
    if delta < cfg.min_scroll_threshold {
        return Placement::Still;
    }
    if reverse {
        return Placement::Back { delta, bottom };
    }
    let cut = find_seam(next, ov, top, &cols, cfg);
    Placement::Ahead { trim: ov - cut, start: top + cut, bottom }
}

/// `a <= b` rows of width `w` take no more bytes than `b` rows.
proof fn lemma_row_bytes_mono(w: nat, a: nat, b: nat)
    requires
        a <= b,
    ensures
        row_bytes(w, a) <= row_bytes(w, b),
{
    assert(a * w * 4 <= b * w * 4) by (nonlinear_arith)
        requires a <= b;
}

proof fn lemma_row_bytes_add(w: nat, a: nat, b: nat)
    ensures
        row_bytes(w, a + b) == row_bytes(w, a) + row_bytes(w, b),
        row_bytes(w, a) == w * a * 4,
{
    assert((a + b) * w * 4 == a * w * 4 + b * w * 4) by (nonlinear_arith);
    assert(a * w * 4 == w * a * 4) by (nonlinear_arith);
}

impl Default for ScrollStitcher {
    fn default() -> (r: ScrollStitcher)
        ensures
            r@.config == default_stitch_config(),
            !r@.started,
            r@.valid_height == 0,
    {
        ScrollStitcher::new()
    }
}

impl ScrollStitcher {
    /// A stitcher with the default thresholds.
    pub fn new() -> (r: ScrollStitcher)
        ensures
            r@.config == default_stitch_config(),
            !r@.started,
            r@.valid_height == 0,
            r@.consistent(),
    {
        ScrollStitcher::with_config(StitchConfig::default_config())
    }

    /// A stitcher with the given thresholds and no frame yet.
    pub fn with_config(config: StitchConfig) -> (r: ScrollStitcher)
        requires
            config.valid(),
        ensures
            r@.config == config,
            !r@.started,
            r@.valid_height == 0,
            r@.footer == 0,
            r@.consistent(),
    {
        ScrollStitcher { canvas: None, valid_height: 0, last_frame: None, last_footer_height: 0, config }
    }

    /// Takes in the next frame: the first one starts the canvas; each later
    /// one is aligned against the previous frame and, when it scrolled,
    /// extends or re-positions the canvas.
    pub fn process_frame(&mut self, new_image: Frame) -> (r: StitchResult)
        ensures
            (final(self)@, r) == stitch_step(old(self)@, new_image@),
            old(self)@.consistent(),
            final(self)@.consistent(),
    {
        proof {
            use_type_invariant(&*self);
            self.lemma_consistent();
        }
        let r = self.take_frame(new_image);
        proof {
            use_type_invariant(&*self);
            self.lemma_consistent();
        }
        r
    }

    proof fn lemma_consistent(&self)
        requires
            self.well_formed(),
        ensures
            self@.consistent(),
    {
        if let Some(c) = self.canvas {
            lemma_row_bytes_mono(c@.width, self.valid_height as nat, c@.height);
            lemma_row_bytes_add(c@.width, c@.height, 0);
        }
    }

    fn take_frame(&mut self, new_image: Frame) -> (r: StitchResult)
        ensures
            (final(self)@, r) == stitch_step(old(self)@, new_image@),
    {
        proof { use_type_invariant(&*self); }
        if self.canvas.is_none() {
            self.start_canvas(new_image);
            return StitchResult::Success;
        }
        let placement = match &self.last_frame {
            Some(last) => analyze(last, &new_image, &self.config),
            None => Placement::Unaligned,
        };
        match placement {
            Placement::Unaligned => StitchResult::Failure,
            Placement::Still => {
                self.last_frame = Some(new_image);
                StitchResult::Stationary
            },
            Placement::Back { delta, bottom } => {
                let ghost w = self@.width;
                let ghost old_content = self@.content;
                let ghost c = self.canvas->0;
                let h = self.valid_height.saturating_sub(delta);
                proof {
                    lemma_row_bytes_mono(w, h as nat, self.valid_height as nat);
                    lemma_row_bytes_mono(w, self.valid_height as nat, c@.height);
                    lemma_row_bytes_add(w, c@.height, 0);
                    assert(old_content == c@.data.subrange(0, row_bytes(w, self.valid_height as nat) as int));
                }
                self.valid_height = h;
                self.last_frame = Some(new_image);
                self.last_footer_height = bottom;
                assert(self@.content =~= old_content.subrange(0, row_bytes(w, h as nat) as int));
                StitchResult::Success
            },
            Placement::Ahead { trim, start, bottom } => {
                if self.extend(new_image, trim, start, bottom) {
                    StitchResult::Success
                } else {
                    StitchResult::Failure
                }
            },
        }
    }

    /// The forward branch: trims the canvas and appends the new rows.
    fn extend(&mut self, new_image: Frame, trim: u32, start: u32, bottom: u32) -> (r: bool)
        requires
            old(self)@.started,
            start <= new_image@.height,
            new_image@.width == old(self)@.width,
        ensures
            (final(self)@, if r { StitchResult::Success } else { StitchResult::Failure })
                == extend_step(old(self)@, new_image@, trim as nat, start as nat, bottom as nat),
    {
        proof { use_type_invariant(&*self); }
        let ghost s0 = self@;
        let w = new_image.width();
        let hn = new_image.height();
        let content_end = self.valid_height.saturating_sub(self.last_footer_height);
        if trim > content_end {
            return false;
        }
        let keep = content_end - trim;
        let added = hn - start;
        let total = keep as u64 + added as u64;
        if total > u32::MAX as u64 {
            return false;
        }
        let total = total as u32;
        proof {
            lemma_row_bytes_add(w as nat, total as nat, 0);
        }
        if !buffer_fits(w, total, 4) {
            return false;
        }
        let config = self.config;
        let mut taken = ScrollStitcher::with_config(config);
        std::mem::swap(self, &mut taken);
        proof { use_type_invariant(&taken); }
        let ScrollStitcher { canvas, valid_height, last_frame, last_footer_height, config } = taken;
        let canvas = match canvas {
            Some(c) => c,
            None => {
                return false;
            },
        };
        let cap = canvas.height();
        let ghost kb = row_bytes(w as nat, keep as nat) as int;
        let ghost vb = row_bytes(w as nat, valid_height as nat) as int;
        proof {
            assert(canvas@.width == w);
            assert(s0.content == canvas@.data.subrange(0, vb));
            lemma_row_bytes_mono(w as nat, keep as nat, valid_height as nat);
            lemma_row_bytes_mono(w as nat, valid_height as nat, cap as nat);
            lemma_row_bytes_add(w as nat, keep as nat, added as nat);
            lemma_row_bytes_add(w as nat, cap as nat, 0);
            assert(s0.content.subrange(0, kb) =~= canvas@.data.subrange(0, kb));
        }
        let base = if total > cap {
            let want = if 2 * (cap as u64) >= total as u64 + 2000 { 2 * (cap as u64) } else { total as u64 + 2000 };
            let mut new_cap = total;
            if want <= u32::MAX as u64 && buffer_fits(w, want as u32, 4) {
                new_cap = want as u32;
            }
            match Frame::blank(w, new_cap) {
                Some(blank) => {
                    let grown = Frame::paste_rows(blank, &canvas, 0, 0, keep);
                    assert(grown@.data.subrange(0, kb) =~= canvas@.data.subrange(0, kb));
                    grown
                },
                None => canvas,
            }
        } else {
            canvas
        };
        assert(base@.data.subrange(0, row_bytes(w as nat, keep as nat) as int)
            =~= s0.content.subrange(0, row_bytes(w as nat, keep as nat) as int));
        let _ = base.width();
        let _ = new_image.as_raw();
        proof {
            assert((start + added) * w * 4 == start * w * 4 + added * w * 4) by (nonlinear_arith);
            assert(hn * w * 4 == w * hn * 4) by (nonlinear_arith);
            assert(rows_of(new_image@, start as int, added as int).len() == row_bytes(w as nat, added as nat));
        }
        let merged = Frame::paste_rows(base, &new_image, start, keep, added);
        let _ = merged.width();
        let _ = merged.height();
        assert(merged@.data.subrange(0, row_bytes(w as nat, total as nat) as int)
            =~= s0.content.subrange(0, row_bytes(w as nat, keep as nat) as int)
                + rows_of(new_image@, start as int, added as int));
        *self = ScrollStitcher {
            canvas: Some(merged),
            valid_height: total,
            last_frame: Some(new_image),
            last_footer_height: bottom,
            config,
        };
        assert(self@.config == s0.config);
        assert(self@.width == s0.width);
        assert(self@.started);
        assert(self@.valid_height == total);
        assert(self@.last_frame == new_image@);
        assert(self@.footer == bottom);
        assert(self@.content == s0.content.subrange(0, row_bytes(s0.width, keep as nat) as int)
            + rows_of(new_image@, start as int, added as int));
        assert(content_end as nat == sat_sub(s0.valid_height as int, s0.footer as int));
        assert(added as nat == sat_sub(new_image@.height as int, start as int));
        assert(!(total > u32::MAX || row_bytes(s0.width, total as nat) > usize::MAX));
        true
    }

    /// Starts the canvas with `first`, with room for three times its height
    /// where that can be addressed.
    fn start_canvas(&mut self, first: Frame)
        requires
            !old(self)@.started,
        ensures
            final(self)@ == stitch_step(old(self)@, first@).0,
    {
        proof { use_type_invariant(&*self); }
        let w = first.width();
        let h = first.height();
        let _ = first.as_raw().len();
        let triple = 3 * (h as u64);
        let mut cap: u32 = h;
        if triple <= u32::MAX as u64 && buffer_fits(w, triple as u32, 4) {
            cap = triple as u32;
        }
        match Frame::blank(w, cap) {
            Some(blank) => {
                let canvas = Frame::paste_rows(blank, &first, 0, 0, h);
                let _ = canvas.width();
                proof {
                    lemma_row_bytes_add(w as nat, h as nat, 0);
                    lemma_row_bytes_mono(w as nat, h as nat, cap as nat);
                    assert(canvas@.data.subrange(0, row_bytes(w as nat, h as nat) as int) =~= first@.data);
                }
                *self = ScrollStitcher {
                    canvas: Some(canvas),
                    valid_height: h,
                    last_frame: Some(first),
                    last_footer_height: 0,
                    config: self.config,
                };
            },
            None => {},
        }
    }

    /// The content rows of the canvas as an image of their own; `None`
    /// before the first frame or when it is empty.
    pub fn get_final_image(&self) -> (r: Option<Frame>)
        ensures
            r matches Some(f) ==> final_image_of(self@) == Some(f@),
            r is None ==> final_image_of(self@) is None,
    {
        proof { use_type_invariant(self); }
        match &self.canvas {
            Some(c) => {
                let h = self.valid_height;
                if h == 0 || c.width() == 0 {
                    return None;
                }
                let f = c.top_rows(h);
                proof {
                    assert(rows_of(c@, 0, h as int) == self@.content);
                }
                Some(f)
            },
            None => None,
        }
    }

    /// The content scaled to `target_width` pixels wide, in proportion; `None`
    /// before the first frame, when the content is empty, when the scaled
    /// height rounds to zero, or when the scaled image cannot be addressed.
    pub fn make_thumbnail(&self, target_width: u32) -> (r: Option<Frame>)
        ensures
            r matches Some(f) ==> thumbnail_of(self@, target_width as nat) == Some(f@),
            r is None ==> thumbnail_of(self@, target_width as nat) is None,
    {
        proof { use_type_invariant(self); }
        let c = match &self.canvas {
            Some(c) => c,
            None => {
                return None;
            },
        };
        let w = c.width();
        let h = self.valid_height;
        if h == 0 || w == 0 {
            return None;
        }
        proof {
            assert(h * target_width <= 4294967295 * 4294967295) by (nonlinear_arith)
                requires h <= 4294967295, target_width <= 4294967295;
        }
        let th = (h as u64 * target_width as u64) / w as u64;
        if th == 0 || th > u32::MAX as u64 {
            return None;
        }
        let th = th as u32;
        if !buffer_fits(w, th, 16) || !buffer_fits(target_width, th, 4) {
            return None;
        }
        let cropped = c.top_rows(h);
        proof {
            assert(rows_of(c@, 0, h as int) == self@.content);
        }
        let raw = cropped.as_raw();
        let scaled = resize_triangle(w, h, raw, target_width, th);
        Frame::from_raw(target_width, th, scaled)
    }

    /// The canvas and how many of its rows hold content; `None` before the first frame.
    pub fn current_image(&self) -> (r: Option<(&Frame, u32)>)
        ensures
            r is Some <==> self@.started,
            r matches Some(p) ==> current_of(self@) == Some((p.0@, p.1 as nat)),
            r matches Some(p) ==> {
                &&& p.1 == self@.valid_height
                &&& p.0@.width == self@.width
                &&& p.1 <= p.0@.height
                &&& p.0@.data.subrange(0, row_bytes(self@.width, p.1 as nat) as int) == self@.content
            },
    {
        proof { use_type_invariant(self); }
        match &self.canvas {
            Some(c) => Some((c, self.valid_height)),
            None => None,
        }
    }
}

/// A forward alignment keeps its cut, the rows it drops and the new fixed
/// footer inside the new frame.
pub proof fn lemma_alignment_fits(prev: FrameView, next: FrameView, cfg: StitchConfig)
    requires
        cfg.valid(),
    ensures
        align_frames(prev, next, cfg) matches Alignment::Ahead { trim, start, bottom }
            ==> start + trim + bottom <= next.height,
{
    if prev.width == next.width {
        let cols = active_columns(prev, next, cfg);
        let sp = signatures(prev, cols);
        let sn = signatures(next, cols);
        let bands = fixed_bands(sp, sn, cfg.fixed_diff_percent as nat);
        let top = bands.0;
        let bottom = bands.1;
        let hi = overlap_limit(sp.len(), sn.len(), top, bottom);
        if hi >= cfg.min_overlap {
            lemma_scan_bound(sp, sn, top, bottom, false, cfg.overlap_avg_threshold as nat, cfg.min_overlap as int,
                hi, 0, u64::MAX as nat, hi);
            lemma_scan_bound(sp, sn, top, bottom, true, cfg.overlap_avg_threshold as nat, cfg.min_overlap as int,
                hi, 0, u64::MAX as nat, hi);
        }
        let ov = best_overlap(sp, sn, top, bottom, cfg).0;
        lemma_seam_row_bound(next, cols, cfg, ov, top);
    }
}

/// Once a first frame is in, the canvas keeps its width whatever frame comes
/// next, and a frame whose width differs from the canvas fails and leaves the
/// stitcher as it was.
pub proof fn lemma_width_is_kept(s: StitcherView, f: FrameView)
    requires
        s.consistent(),
        s.started,
        f.wf(),
    ensures
        stitch_step(s, f).0.started,
        stitch_step(s, f).0.width == s.width,
        stitch_step(s, f).0.consistent(),
        f.width != s.width ==> stitch_step(s, f) == (s, StitchResult::Failure),
{
    let next = stitch_step(s, f).0;
    match align_frames(s.last_frame, f, s.config) {
        Alignment::Back { delta, bottom } => {
            let h = sat_sub(s.valid_height as int, delta as int);
            lemma_row_bytes_mono(s.width, h, s.valid_height);
        },
        Alignment::Ahead { trim, start, bottom } => {
            lemma_alignment_fits(s.last_frame, f, s.config);
            let content_end = sat_sub(s.valid_height as int, s.footer as int);
            if trim <= content_end {
                let keep = (content_end - trim) as nat;
                let added = sat_sub(f.height as int, start as int);
                lemma_row_bytes_mono(s.width, keep, s.valid_height);
                lemma_row_bytes_add(s.width, keep, added);
                assert((start + added) * f.width * 4 == start * f.width * 4 + added * f.width * 4) by (nonlinear_arith);
                assert((start + added) * f.width * 4 <= f.width * f.height * 4) by (nonlinear_arith)
                    requires start + added <= f.height;
                assert(start * f.width * 4 <= (start + added) * f.width * 4) by (nonlinear_arith);
                assert(row_bytes(f.width, added) == added * f.width * 4);
            }
        },
        _ => {},
    }
}

/// A forward scroll that succeeds never shortens the content, as long as the
/// footer it replaces is no taller than the new one; a reverse scroll that
/// succeeds shortens it by exactly the scroll distance (stopping at zero).
pub proof fn lemma_valid_height_moves(s: StitcherView, f: FrameView)
    requires
        s.consistent(),
        s.started,
    ensures
        align_frames(s.last_frame, f, s.config) matches Alignment::Ahead { bottom, .. }
            ==> (stitch_step(s, f).1 == StitchResult::Success && s.footer <= bottom
                ==> stitch_step(s, f).0.valid_height >= s.valid_height),
        align_frames(s.last_frame, f, s.config) matches Alignment::Back { delta, .. } ==> {
            &&& stitch_step(s, f).1 == StitchResult::Success
            &&& stitch_step(s, f).0.valid_height == sat_sub(s.valid_height as int, delta as int)
            &&& delta <= s.valid_height ==> stitch_step(s, f).0.valid_height == s.valid_height - delta
        },
{
    lemma_alignment_fits(s.last_frame, f, s.config);
}

/// What the reads return depends on the canvas alone: two stitchers with the
/// same canvas and content give the same canvas from `current_image`, the
/// same thumbnail and the same final image, so repeated reads with no frame
/// in between agree.
pub proof fn lemma_reads_repeatable(s1: StitcherView, s2: StitcherView, target_width: nat)
    requires
        s1.started == s2.started,
        s1.width == s2.width,
        s1.valid_height == s2.valid_height,
        s1.content == s2.content,
        s1.canvas == s2.canvas,
    ensures
        current_of(s1) == current_of(s2),
        thumbnail_of(s1, target_width) == thumbnail_of(s2, target_width),
        final_image_of(s1) == final_image_of(s2),
{
}

/// The canvas never shrinks: whatever frame comes, its allocated rows stay
/// as many or grow, its width stays, and the content stays within it. A
/// reverse scroll or a stationary frame leaves the canvas as it was.
pub proof fn lemma_capacity_never_shrinks(s: StitcherView, f: FrameView)
    requires
        s.consistent(),
        s.started,
        f.wf(),
    ensures
        stitch_step(s, f).0.canvas.height >= s.canvas.height,
        stitch_step(s, f).0.canvas.width == s.canvas.width,
        stitch_step(s, f).0.valid_height <= stitch_step(s, f).0.canvas.height,
        !(align_frames(s.last_frame, f, s.config) is Ahead) ==> stitch_step(s, f).0.canvas == s.canvas,
{
    lemma_width_is_kept(s, f);
}

} // verus!
