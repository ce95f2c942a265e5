use minnowsnap::frame::Frame;
use minnowsnap::scroll_worker::{next_step, WorkerAction, WARN_AFTER_FAILURES};
use minnowsnap::stitcher::{ScrollStitcher, StitchConfig, StitchResult};

const W: u32 = 400;
const H: u32 = 800;

/// Grey level of row `r` of a document: a well-mixed hash of the row number.
fn shade(doc: u64, r: u64) -> u8 {
    let mut z = r.wrapping_add(doc.wrapping_mul(1_000_003));
    z = (z ^ (z >> 30)).wrapping_mul(0xBF58_476D_1CE4_E5B9);
    z = (z ^ (z >> 27)).wrapping_mul(0x94D0_49BB_1331_11EB);
    z ^= z >> 31;
    (z & 255) as u8
}

/// Rows `[first, first + height)` of document `doc`, `width` pixels wide.
fn view(doc: u64, first: u64, width: u32, height: u32) -> Frame {
    let mut data = Vec::with_capacity((width * height * 4) as usize);
    for y in 0..height as u64 {
        let v = shade(doc, first + y);
        for _ in 0..width {
            data.extend_from_slice(&[v, v, v, 255]);
        }
    }
    Frame::from_raw(width, height, data).unwrap()
}

fn valid_height(s: &ScrollStitcher) -> u32 {
    s.current_image().map(|(_, h)| h).unwrap_or(0)
}

fn rows(f: &Frame, from: u32, to: u32) -> Vec<u8> {
    let stride = (f.width() * 4) as usize;
    f.as_raw()[from as usize * stride..to as usize * stride].to_vec()
}

/// Frame 1 shows rows 0..800, frame 2 rows 100..900: a scroll of 100 rows.
fn scrolled_once() -> (ScrollStitcher, Frame, Frame) {
    let f1 = view(1, 0, W, H);
    let f2 = view(1, 100, W, H);
    let mut s = ScrollStitcher::new();
    assert_eq!(s.process_frame(view(1, 0, W, H)), StitchResult::Success);
    assert_eq!(s.process_frame(view(1, 100, W, H)), StitchResult::Success);
    (s, f1, f2)
}

#[test]
fn identical_frames_are_stationary() {
    let mut s = ScrollStitcher::new();
    assert_eq!(s.process_frame(view(1, 0, W, H)), StitchResult::Success);
    assert_eq!(valid_height(&s), 800);
    assert_eq!(s.process_frame(view(1, 0, W, H)), StitchResult::Stationary);
    assert_eq!(valid_height(&s), 800);
}

#[test]
fn forward_scroll_appends_new_rows() {
    let (s, _, _) = scrolled_once();
    assert_eq!(valid_height(&s), 900);
}

#[test]
fn unrelated_frame_fails() {
    let mut s = ScrollStitcher::new();
    assert_eq!(s.process_frame(view(1, 0, W, H)), StitchResult::Success);
    assert_eq!(s.process_frame(view(2, 0, W, H)), StitchResult::Failure);
    assert_eq!(valid_height(&s), 800);
}

#[test]
fn reverse_scroll_shrinks_without_copy() {
    let (mut s, _, _) = scrolled_once();
    let before = s.get_final_image().unwrap();
    assert_eq!(s.process_frame(view(1, 50, W, H)), StitchResult::Success);
    assert_eq!(valid_height(&s), 850);
    let after = s.get_final_image().unwrap();
    assert_eq!(after.height(), 850);
    assert_eq!(rows(&after, 0, 850), rows(&before, 0, 850));
}

#[test]
fn final_image_joins_both_frames() {
    let (s, f1, f2) = scrolled_once();
    let fin = s.get_final_image().unwrap();
    assert_eq!(fin.width(), 400);
    assert_eq!(fin.height(), 900);
    assert_eq!(rows(&fin, 0, 800), f1.as_raw().clone());
    assert_eq!(rows(&fin, 800, 900), rows(&f2, 700, 800));
}

#[test]
fn width_change_fails_and_keeps_state() {
    let mut s = ScrollStitcher::new();
    assert_eq!(s.process_frame(view(1, 0, W, H)), StitchResult::Success);
    assert_eq!(s.process_frame(view(1, 100, 300, H)), StitchResult::Failure);
    assert_eq!(valid_height(&s), 800);
    assert_eq!(s.current_image().unwrap().0.width(), 400);
    // the reference frame is still the first one
    assert_eq!(s.process_frame(view(1, 100, W, H)), StitchResult::Success);
    assert_eq!(valid_height(&s), 900);
}

#[test]
fn heights_move_with_the_scroll_direction() {
    let mut s = ScrollStitcher::new();
    assert_eq!(s.process_frame(view(3, 0, W, H)), StitchResult::Success);
    let mut last = valid_height(&s);
    for k in 1..4u64 {
        assert_eq!(s.process_frame(view(3, 60 * k, W, H)), StitchResult::Success);
        let h = valid_height(&s);
        assert!(h >= last);
        last = h;
    }
    assert_eq!(last, 980);
    assert_eq!(s.process_frame(view(3, 120, W, H)), StitchResult::Success);
    assert_eq!(valid_height(&s), 980 - 60);
}

#[test]
fn reads_repeat_without_new_frames() {
    let (s, _, _) = scrolled_once();
    let t1 = s.make_thumbnail(200).unwrap();
    let t2 = s.make_thumbnail(200).unwrap();
    assert_eq!(t1.as_raw(), t2.as_raw());
    let (c1, h1) = s.current_image().unwrap();
    let (c2, h2) = s.current_image().unwrap();
    assert_eq!(h1, h2);
    assert_eq!(c1.as_raw(), c2.as_raw());
}

#[test]
fn thumbnail_scales_in_proportion() {
    let (s, _, _) = scrolled_once();
    let t = s.make_thumbnail(200).unwrap();
    assert_eq!(t.width(), 200);
    assert_eq!(t.height(), 450);
    assert_eq!(t.as_raw().len(), 200 * 450 * 4);
    let big = s.make_thumbnail(500).unwrap();
    assert_eq!(big.height(), 1125);
}

#[test]
fn thumbnail_absent_without_content() {
    let s = ScrollStitcher::new();
    assert!(s.make_thumbnail(500).is_none());
    assert!(s.get_final_image().is_none());
    assert!(s.current_image().is_none());
    let (s, _, _) = scrolled_once();
    assert!(s.make_thumbnail(0).is_none());
}

#[test]
fn short_scroll_is_stationary() {
    let mut s = ScrollStitcher::new();
    assert_eq!(s.process_frame(view(4, 0, W, H)), StitchResult::Success);
    assert_eq!(s.process_frame(view(4, 3, W, H)), StitchResult::Stationary);
    assert_eq!(valid_height(&s), 800);
}

#[test]
fn default_config_values() {
    let c = StitchConfig::default();
    assert_eq!(c.min_overlap, 20);
    assert_eq!(c.min_scroll_threshold, 5);
    assert_eq!(c.overlap_avg_threshold, 500);
    assert_eq!(c.motion_scan_step, 8);
    assert_eq!(c.motion_threshold_divisor, 2);
    assert_eq!(c.fixed_diff_percent, 5);
    assert_eq!(c.verify_pixel_diff, 80);
    assert_eq!(c.verify_step_divisor, 20);
    assert_eq!(c.seam_margin_divisor, 4);
}

#[test]
fn frame_from_raw_checks_length() {
    assert!(Frame::from_raw(2, 2, vec![0; 16]).is_some());
    assert!(Frame::from_raw(2, 2, vec![0; 15]).is_none());
    assert!(Frame::blank(3, 2).unwrap().as_raw().iter().all(|b| *b == 0));
    assert!(Frame::blank(u32::MAX, u32::MAX).is_none());
    assert_eq!(Frame::from_raw(2, 2, vec![9; 16]).unwrap().into_raw(), vec![9; 16]);
}

#[test]
fn worker_warns_once_after_many_failures() {
    let mut n = 0;
    let mut warnings = 0;
    for _ in 0..40 {
        let (m, a) = next_step(n, StitchResult::Failure);
        if a == WorkerAction::Warn {
            warnings += 1;
            assert_eq!(m, WARN_AFTER_FAILURES);
        }
        n = m;
    }
    assert_eq!(warnings, 1);
    assert_eq!(next_step(n, StitchResult::Success), (0, WorkerAction::ShowProgress));
    assert_eq!(next_step(n, StitchResult::Stationary), (0, WorkerAction::Continue));
}

#[test]
fn canvas_capacity_starts_triple_and_never_shrinks() {
    let mut s = ScrollStitcher::new();
    assert_eq!(s.process_frame(view(1, 0, W, H)), StitchResult::Success);
    assert_eq!(s.current_image().unwrap().0.height(), 2400);
    assert_eq!(s.process_frame(view(1, 100, W, H)), StitchResult::Success);
    assert_eq!(s.current_image().unwrap().0.height(), 2400);
    let before = s.current_image().unwrap().0.as_raw().clone();
    assert_eq!(s.process_frame(view(1, 50, W, H)), StitchResult::Success);
    let (c, h) = s.current_image().unwrap();
    assert_eq!(h, 850);
    assert_eq!(c.height(), 2400);
    assert_eq!(c.as_raw(), &before);
}

#[test]
fn canvas_grows_to_fit_plus_margin() {
    let mut s = ScrollStitcher::new();
    assert_eq!(s.process_frame(view(5, 0, 40, 30)), StitchResult::Success);
    assert_eq!(s.current_image().unwrap().0.height(), 90);
    let mut grew = false;
    for k in 1..20u64 {
        let cap = s.current_image().unwrap().0.height();
        s.process_frame(view(5, 8 * k, 40, 30));
        let (c, h) = s.current_image().unwrap();
        assert!(h <= c.height());
        if h > cap {
            assert_eq!(c.height(), std::cmp::max(2 * cap, h + 2000));
            grew = true;
        } else {
            assert_eq!(c.height(), cap);
        }
    }
    assert!(grew);
}

#[test]
fn paste_rows_copies_inside_and_skips_outside() {
    let dest = Frame::blank(2, 3).unwrap();
    let src = Frame::from_raw(2, 2, (1..=16).collect()).unwrap();
    let out = Frame::paste_rows(dest, &src, 1, 2, 1);
    let mut expected = vec![0u8; 16];
    expected.extend(9..=16);
    assert_eq!(out.as_raw(), &expected);
    let unchanged = Frame::paste_rows(out, &src, 1, 2, 2);
    assert_eq!(unchanged.as_raw(), &expected);
    let unchanged = Frame::paste_rows(unchanged, &src, 0, 2, 2);
    assert_eq!(unchanged.as_raw(), &expected);
}
