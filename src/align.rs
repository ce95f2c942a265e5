//! Row signatures, fixed bands, overlap search, pixel verification and seam
//! choice: the steps that align a new frame against the previous one.
use vstd::prelude::*;
use crate::frame::{byte_index, lemma_pixel_in_bounds, Frame, FrameView};
use crate::stitcher::StitchConfig;

verus! {

/// Upper bound of one row signature: three channels of 255 over at most `u32::MAX` columns.
pub const SIG_MAX: u64 = 3285649980675;

pub open spec fn absdiff(a: int, b: int) -> nat {
    if a >= b { (a - b) as nat } else { (b - a) as nat }
}

/// Summed absolute R, G and B difference of the pixels starting at `i1` and `i2`.
pub open spec fn pixel_diff(d1: Seq<u8>, i1: int, d2: Seq<u8>, i2: int) -> nat {
    absdiff(d1[i1] as int, d2[i2] as int) + absdiff(d1[i1 + 1] as int, d2[i2 + 1] as int)
        + absdiff(d1[i1 + 2] as int, d2[i2 + 2] as int)
}

/// R + G + B of the pixel starting at `i`.
pub open spec fn pixel_sum(d: Seq<u8>, i: int) -> nat {
    (d[i] + d[i + 1] + d[i + 2]) as nat
}

/// Rows that both frames have.
pub open spec fn common_rows(p: FrameView, n: FrameView) -> nat {
    if p.height <= n.height { p.height } else { n.height }
}

/// Motion of column `x`: colour difference summed over rows `y, y + step, ...`.
pub open spec fn column_motion_from(p: FrameView, n: FrameView, x: int, step: nat, y: int) -> nat
    decreases common_rows(p, n) + step - y,
{
    if step == 0 || y >= common_rows(p, n) || y < 0 {
        0
    } else {
        pixel_diff(p.data, byte_index(p.width, x, y), n.data, byte_index(p.width, x, y))
            + column_motion_from(p, n, x, step, y + step)
    }
}

/// A sampled column changed enough between the two frames.
pub open spec fn column_is_active(p: FrameView, n: FrameView, x: int, cfg: StitchConfig) -> bool {
    column_motion_from(p, n, x, cfg.motion_scan_step as nat, 0)
        > p.height / (cfg.motion_threshold_divisor as nat)
}

/// Active columns among `x, x + step, ...`, in increasing order.
pub open spec fn active_columns_from(p: FrameView, n: FrameView, cfg: StitchConfig, x: int) -> Seq<usize>
    decreases p.width + cfg.motion_scan_step - x,
{
    if cfg.motion_scan_step == 0 || x >= p.width || x < 0 {
        seq![]
    } else {
        (if column_is_active(p, n, x, cfg) { seq![x as usize] } else { seq![] })
            + active_columns_from(p, n, cfg, x + cfg.motion_scan_step)
    }
}

/// The columns that moved between `p` and `n`.
pub open spec fn active_columns(p: FrameView, n: FrameView, cfg: StitchConfig) -> Seq<usize> {
    active_columns_from(p, n, cfg, 0)
}

/// Signature of row `y` over the first `k` columns of `cols`.
pub open spec fn row_signature(f: FrameView, cols: Seq<usize>, y: int, k: int) -> nat
    decreases k,
{
    if k <= 0 {
        0
    } else {
        row_signature(f, cols, y, k - 1) + pixel_sum(f.data, byte_index(f.width, cols[k - 1] as int, y))
    }
}

/// One signature per row of `f`, each over all of `cols`.
pub open spec fn signatures(f: FrameView, cols: Seq<usize>) -> Seq<nat> {
    Seq::new(f.height, |y: int| row_signature(f, cols, y, cols.len() as int))
}

/// Index of pixel `(x, y)` in a `w * h` frame.
fn pixel_index(w: u32, h: u32, x: usize, y: usize) -> (r: usize)
    requires
        x < w,
        y < h,
        w * h * 4 <= usize::MAX,
    ensures
        r == byte_index(w as nat, x as int, y as int),
        r + 3 < w * h * 4,
{
    proof {
        lemma_pixel_in_bounds(w as nat, h as nat, x as int, y as int);
        assert(y * w <= (y * w + x) * 4) by (nonlinear_arith)
            requires 0 <= x, 0 <= y * w;
        assert(0 <= y * w) by (nonlinear_arith)
            requires 0 <= y, 0 <= w;
    }
    (y * (w as usize) + x) * 4
}

fn abs_diff_u8(a: u8, b: u8) -> (r: u32)
    ensures
        r == absdiff(a as int, b as int),
{
    if a >= b { (a - b) as u32 } else { (b - a) as u32 }
}

fn pixel_diff_at(d1: &Vec<u8>, i1: usize, d2: &Vec<u8>, i2: usize) -> (r: u32)
    requires
        i1 + 2 < d1@.len(),
        i2 + 2 < d2@.len(),
    ensures
        r == pixel_diff(d1@, i1 as int, d2@, i2 as int),
        r <= 765,
{
    let _ = d1.len();
    let _ = d2.len();
    abs_diff_u8(d1[i1], d2[i2]) + abs_diff_u8(d1[i1 + 1], d2[i2 + 1]) + abs_diff_u8(d1[i1 + 2], d2[i2 + 2])
}

fn pixel_sum_at(d: &Vec<u8>, i: usize) -> (r: u64)
    requires
        i + 2 < d@.len(),
    ensures
        r == pixel_sum(d@, i as int),
        r <= 765,
{
    let _ = d.len();
    d[i] as u64 + d[i + 1] as u64 + d[i + 2] as u64
}

/// The sampled columns whose summed colour difference between `prev` and
/// `next` exceeds `prev`'s height over the motion divisor.
pub fn motion_mask(prev: &Frame, next: &Frame, cfg: &StitchConfig) -> (r: Vec<usize>)
    requires
        cfg.valid(),
        prev@.width == next@.width,
    ensures
        r@ == active_columns(prev@, next@, *cfg),
        r@.len() <= prev@.width,
        forall|j: int| 0 <= j < r@.len() ==> r@[j] < prev@.width,
{
    let w = prev.width();
    let h = prev.height();
    let hn = next.height();
    let rows = if h <= hn { h } else { hn };
    let rp = prev.as_raw();
    let rn = next.as_raw();
    let step = cfg.motion_scan_step;
    let threshold = h as u64 / cfg.motion_threshold_divisor;
    let ghost p = prev@;
    let ghost n = next@;
    assert(rows == common_rows(p, n));
    let _ = rp.len();
    let _ = rn.len();
    let mut cols: Vec<usize> = Vec::new();
    let mut x: usize = 0;
    while x < w as usize
        invariant
            x <= w,
            cols@ + active_columns_from(p, n, *cfg, x as int) == active_columns(p, n, *cfg),
            cols@.len() <= x,
            forall|j: int| 0 <= j < cols@.len() ==> cols@[j] < w,
            rp@ == p.data,
            rn@ == n.data,
            rp@.len() == w * h * 4,
            rn@.len() == w * hn * 4,
            p.width == w,
            n.width == w,
            p.height == h,
            rows == common_rows(p, n),
            rows <= h,
            rows <= hn,
            w * h * 4 <= usize::MAX,
            w * hn * 4 <= usize::MAX,
            step == cfg.motion_scan_step,
            threshold == h as nat / (cfg.motion_threshold_divisor as nat),
            cfg.valid(),
        decreases w - x,
    {
        let mut sum: u64 = 0;
        let mut y: usize = 0;
        while y < rows as usize
            invariant
                y <= rows,
                x < w,
                sum + column_motion_from(p, n, x as int, step as nat, y as int)
                    == column_motion_from(p, n, x as int, step as nat, 0),
                sum <= 765 * y,
                rp@ == p.data,
                rn@ == n.data,
                rp@.len() == w * h * 4,
                rn@.len() == w * hn * 4,
                p.width == w,
                rows == common_rows(p, n),
                rows <= h,
                rows <= hn,
                w * h * 4 <= usize::MAX,
                step > 0,
            decreases rows - y,
        {
            proof {
                lemma_pixel_in_bounds(w as nat, h as nat, x as int, y as int);
                lemma_pixel_in_bounds(w as nat, hn as nat, x as int, y as int);
            }
            let idx = pixel_index(w, h, x, y);
            sum = sum + pixel_diff_at(rp, idx, rn, idx) as u64;
            assert(column_motion_from(p, n, x as int, step as nat, y as int)
                == pixel_diff(p.data, idx as int, n.data, idx as int)
                    + column_motion_from(p, n, x as int, step as nat, y + step));
            if step >= rows as usize - y {
                assert(column_motion_from(p, n, x as int, step as nat, y + step) == 0);
                assert(column_motion_from(p, n, x as int, step as nat, rows as int) == 0);
                y = rows as usize;
            } else {
                y = y + step;
            }
        }
        let ghost before = cols@;
        if sum > threshold {
            cols.push(x);
            assert(cols@ + active_columns_from(p, n, *cfg, (x + step) as int)
                =~= before + active_columns_from(p, n, *cfg, x as int));
        } else {
            assert(cols@ + active_columns_from(p, n, *cfg, (x + step) as int)
                =~= before + active_columns_from(p, n, *cfg, x as int));
        }
        if step >= w as usize - x {
            x = w as usize;
        } else {
            x = x + step;
        }
    }
    cols
}

/// One signature per row of `f`: R + G + B summed over the columns `cols`.
pub fn masked_signatures(f: &Frame, cols: &Vec<usize>) -> (r: Vec<u64>)
    requires
        cols@.len() <= f@.width,
        forall|j: int| 0 <= j < cols@.len() ==> cols@[j] < f@.width,
    ensures
        r@.len() == f@.height,
        forall|y: int| 0 <= y < r@.len() ==> r@[y] as nat == #[trigger] signatures(f@, cols@)[y],
        forall|y: int| 0 <= y < r@.len() ==> #[trigger] r@[y] <= SIG_MAX,
{
    let w = f.width();
    let h = f.height();
    let raw = f.as_raw();
    let ghost fv = f@;
    let _ = raw.len();
    let mut sigs: Vec<u64> = Vec::new();
    let mut y: usize = 0;
    while y < h as usize
        invariant
            y <= h,
            sigs@.len() == y,
            forall|i: int| 0 <= i < y ==> sigs@[i] as nat == #[trigger] signatures(fv, cols@)[i],
            forall|i: int| 0 <= i < y ==> #[trigger] sigs@[i] <= SIG_MAX,
            raw@ == fv.data,
            raw@.len() == w * h * 4,
            fv.width == w,
            fv.height == h,
            w * h * 4 <= usize::MAX,
            cols@.len() <= w,
            forall|j: int| 0 <= j < cols@.len() ==> cols@[j] < w,
        decreases h - y,
    {
        let mut sum: u64 = 0;
        let mut k: usize = 0;
        while k < cols.len()
            invariant
                k <= cols@.len(),
                y < h,
                sum == row_signature(fv, cols@, y as int, k as int),
                sum <= 765 * k,
                raw@ == fv.data,
                raw@.len() == w * h * 4,
                fv.width == w,
                w * h * 4 <= usize::MAX,
                cols@.len() <= w,
                forall|j: int| 0 <= j < cols@.len() ==> cols@[j] < w,
            decreases cols@.len() - k,
        {
            let idx = pixel_index(w, h, cols[k], y);
            sum = sum + pixel_sum_at(raw, idx);
            k = k + 1;
        }
        assert(k <= 4294967295);
        assert(765 * k <= 765 * 4294967295);
        assert(sum <= SIG_MAX);
        sigs.push(sum);
        y = y + 1;
    }
    sigs
}

/// Row `i` of `s2` exists and its signature is within `pct` percent of `s1[i]`.
pub open spec fn row_unchanged(s1: Seq<nat>, s2: Seq<nat>, i: int, pct: nat) -> bool {
    &&& 0 <= i < s1.len()
    &&& 0 <= i < s2.len()
    &&& {
        let a = s1[i];
        let b = s2[i];
        let mx = if a >= b { a } else { b };
        !(mx > 0 && absdiff(a as int, b as int) * 100 / mx > pct)
    }
}

/// Rows `k, k + 1, ...` counted from the top (or, with `from_bottom`, from
/// the bottom of `s1`) until the first changed one, at most `m` in all.
pub open spec fn unchanged_run_from(s1: Seq<nat>, s2: Seq<nat>, pct: nat, from_bottom: bool, k: nat, m: nat) -> nat
    decreases m - k,
{
    let i = if from_bottom { s1.len() - 1 - k } else { k as int };
    if k >= m || !row_unchanged(s1, s2, i, pct) {
        k
    } else {
        unchanged_run_from(s1, s2, pct, from_bottom, k + 1, m)
    }
}

/// Heights of the leading and trailing bands that did not change, each at
/// most a third of `s1`'s rows.
pub open spec fn fixed_bands(s1: Seq<nat>, s2: Seq<nat>, pct: nat) -> (nat, nat) {
    let m = s1.len() / 3;
    (unchanged_run_from(s1, s2, pct, false, 0, m), unchanged_run_from(s1, s2, pct, true, 0, m))
}

pub open spec fn sig_view(s: Seq<u64>) -> Seq<nat> {
    Seq::new(s.len(), |i: int| s[i] as nat)
}

pub open spec fn sigs_bounded(s: Seq<u64>) -> bool {
    forall|i: int| 0 <= i < s.len() ==> #[trigger] s[i] <= SIG_MAX
}

fn unchanged_run(s1: &Vec<u64>, s2: &Vec<u64>, pct: u64, from_bottom: bool, m: usize) -> (r: u32)
    requires
        sigs_bounded(s1@),
        sigs_bounded(s2@),
        m <= s1@.len(),
        s1@.len() <= u32::MAX,
    ensures
        r == unchanged_run_from(sig_view(s1@), sig_view(s2@), pct as nat, from_bottom, 0, m as nat),
        r <= m,
{
    let ghost v1 = sig_view(s1@);
    let ghost v2 = sig_view(s2@);
    let h = s1.len();
    let mut k: usize = 0;
    while k < m
        invariant
            k <= m,
            m <= h,
            h == s1@.len(),
            h <= u32::MAX,
            v1 == sig_view(s1@),
            v2 == sig_view(s2@),
            sigs_bounded(s1@),
            sigs_bounded(s2@),
            unchanged_run_from(v1, v2, pct as nat, from_bottom, k as nat, m as nat)
                == unchanged_run_from(v1, v2, pct as nat, from_bottom, 0, m as nat),
        ensures
            k <= m,
            unchanged_run_from(v1, v2, pct as nat, from_bottom, k as nat, m as nat) == k,
            unchanged_run_from(v1, v2, pct as nat, from_bottom, k as nat, m as nat)
                == unchanged_run_from(v1, v2, pct as nat, from_bottom, 0, m as nat),
        decreases m - k,
    {
        let i = if from_bottom { h - 1 - k } else { k };
        assert(i == (if from_bottom { v1.len() - 1 - k } else { k as int }));
        if i >= s2.len() {
            assert(!row_unchanged(v1, v2, i as int, pct as nat));
            assert(unchanged_run_from(v1, v2, pct as nat, from_bottom, k as nat, m as nat) == k);
            break;
        }
        let a = s1[i];
        let b = s2[i];
        let diff = if a >= b { a - b } else { b - a };
        let mx = if a >= b { a } else { b };
        assert(v1[i as int] == a as nat && v2[i as int] == b as nat);
        assert(diff as nat == absdiff(a as int, b as int));
        if mx > 0 && diff * 100 / mx > pct {
            assert(!row_unchanged(v1, v2, i as int, pct as nat));
            assert(unchanged_run_from(v1, v2, pct as nat, from_bottom, k as nat, m as nat) == k);
            break;
        }
        assert(row_unchanged(v1, v2, i as int, pct as nat));
        k = k + 1;
    }
    k as u32
}

/// Leading and trailing rows whose signatures stayed within the configured
/// percentage, each band at most a third of `s_prev`'s rows.
pub fn detect_fixed_bands(s_prev: &Vec<u64>, s_next: &Vec<u64>, cfg: &StitchConfig) -> (r: (u32, u32))
    requires
        sigs_bounded(s_prev@),
        sigs_bounded(s_next@),
        s_prev@.len() <= u32::MAX,
    ensures
        (r.0 as nat, r.1 as nat) == fixed_bands(sig_view(s_prev@), sig_view(s_next@), cfg.fixed_diff_percent as nat),
        r.0 <= s_prev@.len() / 3,
        r.1 <= s_prev@.len() / 3,
{
    let m = s_prev.len() / 3;
    let top = unchanged_run(s_prev, s_next, cfg.fixed_diff_percent, false, m);
    let bottom = unchanged_run(s_prev, s_next, cfg.fixed_diff_percent, true, m);
    (top, bottom)
}

/// `a - b`, or zero when `b` is larger.
pub open spec fn sat_sub(a: int, b: int) -> nat {
    if a >= b { (a - b) as nat } else { 0 }
}

/// Sum of `|s1[st1 + i] - s2[st2 + i]|` over `i < len`.
pub open spec fn window_score(s1: Seq<nat>, s2: Seq<nat>, st1: int, st2: int, len: int) -> nat
    decreases len,
{
    if len <= 0 {
        0
    } else {
        window_score(s1, s2, st1, st2, len - 1) + absdiff(s1[st1 + len - 1] as int, s2[st2 + len - 1] as int)
    }
}

/// Where an overlap of `ov` rows starts in each signature list: forward, the
/// tail of the previous frame against the head of the next (fixed bands left
/// out); reverse, the other way round.
pub open spec fn window_starts(len1: nat, len2: nat, top: nat, bottom: nat, ov: int, reverse: bool) -> (int, int) {
    if reverse {
        (top as int, len2 - bottom - ov)
    } else {
        (len1 - bottom - ov, top as int)
    }
}

/// Mean signature difference of an overlap of `ov` rows.
pub open spec fn window_avg(s1: Seq<nat>, s2: Seq<nat>, top: nat, bottom: nat, ov: int, reverse: bool) -> nat {
    let st = window_starts(s1.len(), s2.len(), top, bottom, ov, reverse);
    window_score(s1, s2, st.0, st.1, ov) / (ov as nat)
}

/// Scan of the overlaps `ov, ov - 1, ..., lo`: the first whose mean
/// difference is under `thr`, else the one with the lowest mean (the largest
/// among equals), starting from the best so far `(best_ov, best)`.
pub open spec fn scan_from(
    s1: Seq<nat>,
    s2: Seq<nat>,
    top: nat,
    bottom: nat,
    reverse: bool,
    thr: nat,
    lo: int,
    ov: int,
    best_ov: nat,
    best: nat,
) -> (nat, nat)
    decreases ov - lo + 1,
{
    if ov < lo || ov <= 0 {
        (best_ov, best)
    } else {
        let avg = window_avg(s1, s2, top, bottom, ov, reverse);
        if avg < thr {
            (ov as nat, avg)
        } else if avg < best {
            scan_from(s1, s2, top, bottom, reverse, thr, lo, ov - 1, ov as nat, avg)
        } else {
            scan_from(s1, s2, top, bottom, reverse, thr, lo, ov - 1, best_ov, best)
        }
    }
}

/// The largest overlap that the rows outside the fixed bands allow.
pub open spec fn overlap_limit(len1: nat, len2: nat, top: nat, bottom: nat) -> int {
    let v1 = sat_sub(len1 as int, (top + bottom) as int);
    let v2 = sat_sub(len2 as int, (top + bottom) as int);
    if v1 <= v2 { v1 as int } else { v2 as int }
}

/// A scan never picks an overlap above the larger of where it starts and the best so far.
pub proof fn lemma_scan_bound(
    s1: Seq<nat>,
    s2: Seq<nat>,
    top: nat,
    bottom: nat,
    reverse: bool,
    thr: nat,
    lo: int,
    ov: int,
    best_ov: nat,
    best: nat,
    hi: int,
)
    requires
        ov <= hi,
        best_ov <= hi,
    ensures
        scan_from(s1, s2, top, bottom, reverse, thr, lo, ov, best_ov, best).0 <= hi,
    decreases ov - lo + 1,
{
    if ov < lo || ov <= 0 {
    } else {
        let avg = window_avg(s1, s2, top, bottom, ov, reverse);
        if avg < thr {
        } else if avg < best {
            lemma_scan_bound(s1, s2, top, bottom, reverse, thr, lo, ov - 1, ov as nat, avg, hi);
        } else {
            lemma_scan_bound(s1, s2, top, bottom, reverse, thr, lo, ov - 1, best_ov, best, hi);
        }
    }
}

/// Result of the scan in one direction, from the largest possible overlap down.
pub open spec fn direction_scan(s1: Seq<nat>, s2: Seq<nat>, top: nat, bottom: nat, reverse: bool, cfg: StitchConfig) -> (nat, nat) {
    let hi = overlap_limit(s1.len(), s2.len(), top, bottom);
    scan_from(s1, s2, top, bottom, reverse, cfg.overlap_avg_threshold as nat, cfg.min_overlap as int, hi, 0, u64::MAX as nat)
}

/// The chosen overlap and whether it is a reverse scroll: reverse wins only
/// with less than half the forward score; `0` when no overlap is possible.
pub open spec fn best_overlap(s1: Seq<nat>, s2: Seq<nat>, top: nat, bottom: nat, cfg: StitchConfig) -> (nat, bool) {
    let hi = overlap_limit(s1.len(), s2.len(), top, bottom);
    if hi < cfg.min_overlap {
        (0, false)
    } else {
        let f = direction_scan(s1, s2, top, bottom, false, cfg);
        let r = direction_scan(s1, s2, top, bottom, true, cfg);
        if r.1 < f.1 / 2 { (r.0, true) } else { (f.0, false) }
    }
}

fn window_score_exec(s1: &Vec<u64>, s2: &Vec<u64>, st1: usize, st2: usize, len: usize) -> (r: u128)
    requires
        st1 + len <= s1@.len(),
        st2 + len <= s2@.len(),
        sigs_bounded(s1@),
        sigs_bounded(s2@),
    ensures
        r == window_score(sig_view(s1@), sig_view(s2@), st1 as int, st2 as int, len as int),
        r <= len * SIG_MAX,
{
    let ghost v1 = sig_view(s1@);
    let ghost v2 = sig_view(s2@);
    let _ = s1.len();
    let _ = s2.len();
    let mut sum: u128 = 0;
    let mut i: usize = 0;
    while i < len
        invariant
            i <= len,
            s1@.len() <= usize::MAX,
            s2@.len() <= usize::MAX,
            st1 + len <= s1@.len(),
            st2 + len <= s2@.len(),
            sigs_bounded(s1@),
            sigs_bounded(s2@),
            v1 == sig_view(s1@),
            v2 == sig_view(s2@),
            sum == window_score(v1, v2, st1 as int, st2 as int, i as int),
            sum <= i * SIG_MAX,
        decreases len - i,
    {
        let a = s1[st1 + i];
        let b = s2[st2 + i];
        let d = if a >= b { a - b } else { b - a };
        assert(d <= SIG_MAX);
        sum = sum + d as u128;
        i = i + 1;
    }
    sum
}

fn scan_overlaps(
    s1: &Vec<u64>,
    s2: &Vec<u64>,
    top: u32,
    bottom: u32,
    reverse: bool,
    lo: u32,
    hi: u32,
    thr: u64,
) -> (r: (u32, u64))
    requires
        1 <= lo <= hi,
        hi + top + bottom <= s1@.len(),
        hi + top + bottom <= s2@.len(),
        sigs_bounded(s1@),
        sigs_bounded(s2@),
    ensures
        (r.0 as nat, r.1 as nat) == scan_from(sig_view(s1@), sig_view(s2@), top as nat, bottom as nat, reverse,
            thr as nat, lo as int, hi as int, 0, u64::MAX as nat),
{
    let ghost v1 = sig_view(s1@);
    let ghost v2 = sig_view(s2@);
    let mut best_ov: u32 = 0;
    let mut best: u64 = u64::MAX;
    let mut ov: u32 = hi;
    loop
        invariant
            1 <= lo <= ov <= hi,
            hi + top + bottom <= s1@.len(),
            hi + top + bottom <= s2@.len(),
            sigs_bounded(s1@),
            sigs_bounded(s2@),
            v1 == sig_view(s1@),
            v2 == sig_view(s2@),
            scan_from(v1, v2, top as nat, bottom as nat, reverse, thr as nat, lo as int, ov as int, best_ov as nat, best as nat)
                == scan_from(v1, v2, top as nat, bottom as nat, reverse, thr as nat, lo as int, hi as int, 0, u64::MAX as nat),
        decreases ov,
    {
        let st1: usize = if reverse { top as usize } else { s1.len() - bottom as usize - ov as usize };
        let st2: usize = if reverse { s2.len() - bottom as usize - ov as usize } else { top as usize };
        assert((st1 as int, st2 as int) == window_starts(v1.len(), v2.len(), top as nat, bottom as nat, ov as int, reverse));
        let score = window_score_exec(s1, s2, st1, st2, ov as usize);
        proof {
            let l = ov as int;
            assert(score as int / l <= SIG_MAX) by (nonlinear_arith)
                requires score <= l * SIG_MAX, l >= 1;
        }
        let avg = (score / ov as u128) as u64;
        assert(avg as nat == window_avg(v1, v2, top as nat, bottom as nat, ov as int, reverse));
        if avg < thr {
            return (ov, avg);
        }
        let ghost old_ov = best_ov;
        let ghost old_best = best;
        if avg < best {
            best = avg;
            best_ov = ov;
        }
        assert(scan_from(v1, v2, top as nat, bottom as nat, reverse, thr as nat, lo as int, ov as int, old_ov as nat, old_best as nat)
            == scan_from(v1, v2, top as nat, bottom as nat, reverse, thr as nat, lo as int, ov - 1, best_ov as nat, best as nat));
        if ov == lo {
            return (best_ov, best);
        }
        ov = ov - 1;
    }
}

/// The overlap (in rows) that best aligns the two signature lists, and
/// whether it is a reverse scroll; `0` when none is possible.
pub fn find_optimal_overlap(s_prev: &Vec<u64>, s_next: &Vec<u64>, top: u32, bottom: u32, cfg: &StitchConfig) -> (r: (u32, bool))
    requires
        cfg.valid(),
        sigs_bounded(s_prev@),
        sigs_bounded(s_next@),
        s_prev@.len() <= u32::MAX,
        s_next@.len() <= u32::MAX,
    ensures
        (r.0 as nat, r.1) == best_overlap(sig_view(s_prev@), sig_view(s_next@), top as nat, bottom as nat, *cfg),
        r.0 <= overlap_limit(s_prev@.len(), s_next@.len(), top as nat, bottom as nat),
{
    let ghost v1 = sig_view(s_prev@);
    let ghost v2 = sig_view(s_next@);
    let fixed = top as u64 + bottom as u64;
    let hp = s_prev.len() as u64;
    let hn = s_next.len() as u64;
    let vp: u64 = if hp >= fixed { hp - fixed } else { 0 };
    let vn: u64 = if hn >= fixed { hn - fixed } else { 0 };
    let hi: u64 = if vp <= vn { vp } else { vn };
    if hi < cfg.min_overlap as u64 {
        return (0, false);
    }
    let hi = hi as u32;
    proof {
        lemma_scan_bound(v1, v2, top as nat, bottom as nat, false, cfg.overlap_avg_threshold as nat,
            cfg.min_overlap as int, hi as int, 0, u64::MAX as nat, hi as int);
        lemma_scan_bound(v1, v2, top as nat, bottom as nat, true, cfg.overlap_avg_threshold as nat,
            cfg.min_overlap as int, hi as int, 0, u64::MAX as nat, hi as int);
    }
    let (f_ov, f_score) = scan_overlaps(s_prev, s_next, top, bottom, false, cfg.min_overlap, hi, cfg.overlap_avg_threshold);
    let (r_ov, r_score) = scan_overlaps(s_prev, s_next, top, bottom, true, cfg.min_overlap, hi, cfg.overlap_avg_threshold);
    if r_score < f_score / 2 {
        (r_ov, true)
    } else {
        (f_ov, false)
    }
}

/// Stride through the active columns when sampling them: one in `div`, at least every one.
pub open spec fn sample_step(ncols: nat, div: nat) -> nat {
    if div > 0 && ncols / div >= 1 { ncols / div } else { 1 }
}

/// `(hits, checks)` over the sampled columns `cols[j], cols[j + step], ...`
/// comparing row `y1` of `p` with row `y2` of `n`: a hit differs by less than `max_diff`.
pub open spec fn row_hits_from(
    p: FrameView,
    n: FrameView,
    cols: Seq<usize>,
    step: nat,
    y1: int,
    y2: int,
    max_diff: nat,
    j: int,
) -> (nat, nat)
    decreases cols.len() + step - j,
{
    if step == 0 || j >= cols.len() || j < 0 {
        (0, 0)
    } else {
        let rest = row_hits_from(p, n, cols, step, y1, y2, max_diff, j + step);
        let x = cols[j] as int;
        let d = pixel_diff(p.data, byte_index(p.width, x, y1), n.data, byte_index(p.width, x, y2));
        (if d < max_diff { rest.0 + 1 } else { rest.0 }, rest.1 + 1)
    }
}

/// Row `y1` of `p` and row `y2` of `n` agree on at least half of the sampled columns.
pub open spec fn rows_agree(p: FrameView, n: FrameView, cols: Seq<usize>, cfg: StitchConfig, y1: int, y2: int) -> bool {
    let c = row_hits_from(p, n, cols, sample_step(cols.len(), cfg.verify_step_divisor as nat), y1, y2,
        cfg.verify_pixel_diff as nat, 0);
    c.1 == 0 || c.0 >= c.1 / 2
}

/// The first, middle and last rows of the overlap agree pixel by pixel.
pub open spec fn overlap_confirmed(
    p: FrameView,
    n: FrameView,
    cols: Seq<usize>,
    cfg: StitchConfig,
    ov: nat,
    reverse: bool,
    top: nat,
    bottom: nat,
) -> bool {
    let b1: int = if reverse { top as int } else { p.height - bottom - ov };
    let b2: int = if reverse { n.height - bottom - ov } else { top as int };
    &&& rows_agree(p, n, cols, cfg, b1, b2)
    &&& rows_agree(p, n, cols, cfg, b1 + ov / 2, b2 + ov / 2)
    &&& rows_agree(p, n, cols, cfg, b1 + ov - 1, b2 + ov - 1)
}

fn sampling_step(ncols: usize, div: usize) -> (r: usize)
    requires
        div > 0,
    ensures
        r == sample_step(ncols as nat, div as nat),
        r >= 1,
{
    let s = ncols / div;
    if s >= 1 { s } else { 1 }
}

fn rows_agree_exec(prev: &Frame, next: &Frame, cols: &Vec<usize>, cfg: &StitchConfig, y1: u32, y2: u32) -> (r: bool)
    requires
        cfg.valid(),
        prev@.width == next@.width,
        y1 < prev@.height,
        y2 < next@.height,
        forall|j: int| 0 <= j < cols@.len() ==> cols@[j] < prev@.width,
    ensures
        r == rows_agree(prev@, next@, cols@, *cfg, y1 as int, y2 as int),
{
    let w = prev.width();
    let hp = prev.height();
    let hn = next.height();
    let rp = prev.as_raw();
    let rn = next.as_raw();
    let _ = rp.len();
    let _ = rn.len();
    let ghost p = prev@;
    let ghost n = next@;
    let step = sampling_step(cols.len(), cfg.verify_step_divisor);
    let ghost whole = row_hits_from(p, n, cols@, step as nat, y1 as int, y2 as int, cfg.verify_pixel_diff as nat, 0);
    let mut hits: usize = 0;
    let mut checks: usize = 0;
    let mut j: usize = 0;
    while j < cols.len()
        invariant
            j <= cols@.len(),
            hits <= checks <= j,
            step >= 1,
            step == sample_step(cols@.len(), cfg.verify_step_divisor as nat),
            rp@ == p.data,
            rn@ == n.data,
            rp@.len() == w * hp * 4,
            rn@.len() == w * hn * 4,
            w * hp * 4 <= usize::MAX,
            w * hn * 4 <= usize::MAX,
            p.width == w,
            y1 < hp,
            y2 < hn,
            forall|i: int| 0 <= i < cols@.len() ==> cols@[i] < w,
            whole == row_hits_from(p, n, cols@, step as nat, y1 as int, y2 as int, cfg.verify_pixel_diff as nat, 0),
            ({
                let rest = row_hits_from(p, n, cols@, step as nat, y1 as int, y2 as int, cfg.verify_pixel_diff as nat, j as int);
                hits + rest.0 == whole.0 && checks + rest.1 == whole.1
            }),
        decreases cols@.len() - j,
    {
        let x = cols[j];
        let i1 = pixel_index(w, hp, x, y1 as usize);
        let i2 = pixel_index(w, hn, x, y2 as usize);
        let d = pixel_diff_at(rp, i1, rn, i2);
        let ghost rest_next = row_hits_from(p, n, cols@, step as nat, y1 as int, y2 as int, cfg.verify_pixel_diff as nat, j + step);
        assert(row_hits_from(p, n, cols@, step as nat, y1 as int, y2 as int, cfg.verify_pixel_diff as nat, j as int)
            == (if (d as nat) < cfg.verify_pixel_diff as nat { rest_next.0 + 1 } else { rest_next.0 }, rest_next.1 + 1));
        if d < cfg.verify_pixel_diff {
            hits = hits + 1;
        }
        checks = checks + 1;
        if step >= cols.len() - j {
            assert(rest_next == (0nat, 0nat));
            assert(row_hits_from(p, n, cols@, step as nat, y1 as int, y2 as int, cfg.verify_pixel_diff as nat, cols@.len() as int) == (0nat, 0nat));
            j = cols.len();
        } else {
            j = j + step;
        }
    }
    checks == 0 || hits >= checks / 2
}

/// Confirms an overlap of `ov` rows by comparing pixels of its first, middle
/// and last rows.
pub fn verify_overlap(
    prev: &Frame,
    next: &Frame,
    ov: u32,
    reverse: bool,
    top: u32,
    bottom: u32,
    cols: &Vec<usize>,
    cfg: &StitchConfig,
) -> (r: bool)
    requires
        cfg.valid(),
        prev@.width == next@.width,
        ov >= 1,
        ov + top + bottom <= prev@.height,
        ov + top + bottom <= next@.height,
        forall|j: int| 0 <= j < cols@.len() ==> cols@[j] < prev@.width,
    ensures
        r == overlap_confirmed(prev@, next@, cols@, *cfg, ov as nat, reverse, top as nat, bottom as nat),
{
    let hp = prev.height();
    let hn = next.height();
    let b1: u32 = if reverse { top } else { hp - bottom - ov };
    let b2: u32 = if reverse { hn - bottom - ov } else { top };
    rows_agree_exec(prev, next, cols, cfg, b1, b2)
        && rows_agree_exec(prev, next, cols, cfg, b1 + ov / 2, b2 + ov / 2)
        && rows_agree_exec(prev, next, cols, cfg, b1 + ov - 1, b2 + ov - 1)
}

/// Vertical colour change at row `y` of `n` (against row `y - 1`), summed
/// over the sampled columns `cols[j], cols[j + step], ...`; row 0 costs nothing.
pub open spec fn seam_cost_from(n: FrameView, cols: Seq<usize>, step: nat, y: int, j: int) -> nat
    decreases cols.len() + step - j,
{
    if step == 0 || j >= cols.len() || j < 0 {
        0
    } else {
        let x = cols[j] as int;
        (if y >= 1 {
            pixel_diff(n.data, byte_index(n.width, x, y), n.data, byte_index(n.width, x, y - 1))
        } else {
            0
        }) + seam_cost_from(n, cols, step, y, j + step)
    }
}

pub open spec fn seam_cost(n: FrameView, cols: Seq<usize>, cfg: StitchConfig, y: int) -> nat {
    seam_cost_from(n, cols, sample_step(cols.len(), cfg.verify_step_divisor as nat), y, 0)
}

/// The part of an overlap of `ov` rows where a seam may fall: all of it for a
/// short overlap, else without a margin of `ov / seam_margin_divisor` at each end.
pub open spec fn seam_range(ov: nat, cfg: StitchConfig) -> (nat, nat) {
    let d = cfg.seam_margin_divisor as nat;
    if ov > cfg.min_overlap { (ov / d, ov * sat_sub(d as int, 1) / d) } else { (0, ov) }
}

/// The first offset among `k, k + 1, ..., end - 1` of least seam cost, or
/// `best` when none is cheaper.
pub open spec fn seam_from(
    n: FrameView,
    cols: Seq<usize>,
    cfg: StitchConfig,
    top: nat,
    k: int,
    end: int,
    best: Option<(nat, nat)>,
) -> Option<(nat, nat)>
    decreases end - k,
{
    if k >= end || k < 0 {
        best
    } else {
        let c = seam_cost(n, cols, cfg, top + k);
        let better = match best {
            None => true,
            Some(b) => c < b.1,
        };
        seam_from(n, cols, cfg, top, k + 1, end, if better { Some((k as nat, c)) } else { best })
    }
}

/// The seam search never settles past `bound` when neither the range nor the best so far does.
pub proof fn lemma_seam_from_bound(
    n: FrameView,
    cols: Seq<usize>,
    cfg: StitchConfig,
    top: nat,
    k: int,
    end: int,
    best: Option<(nat, nat)>,
    bound: nat,
)
    requires
        end <= bound,
        best matches Some(b) ==> b.0 <= bound,
    ensures
        seam_from(n, cols, cfg, top, k, end, best) matches Some(b) ==> b.0 <= bound,
    decreases end - k,
{
    if k >= end || k < 0 {
    } else {
        let c = seam_cost(n, cols, cfg, top + k);
        let better = match best {
            None => true,
            Some(b) => c < b.1,
        };
        lemma_seam_from_bound(n, cols, cfg, top, k + 1, end,
            if better { Some((k as nat, c)) } else { best }, bound);
    }
}

/// The seam lies inside the overlap.
pub proof fn lemma_seam_row_bound(n: FrameView, cols: Seq<usize>, cfg: StitchConfig, ov: nat, top: nat)
    requires
        cfg.valid(),
    ensures
        seam_row(n, cols, cfg, ov, top) <= ov,
{
    let d = cfg.seam_margin_divisor as nat;
    assert(ov * sat_sub(d as int, 1) / d <= ov) by (nonlinear_arith)
        requires d >= 1, sat_sub(d as int, 1) == d - 1;
    let range = seam_range(ov, cfg);
    lemma_seam_from_bound(n, cols, cfg, top, range.0 as int, range.1 as int, None, ov);
}

/// Offset, inside an overlap of `ov` rows that starts at row `top` of `n`, at
/// which the new frame is cut: the smoothest row of the search range, or the
/// middle when the range is empty.
pub open spec fn seam_row(n: FrameView, cols: Seq<usize>, cfg: StitchConfig, ov: nat, top: nat) -> nat {
    let range = seam_range(ov, cfg);
    match seam_from(n, cols, cfg, top, range.0 as int, range.1 as int, None) {
        Some(b) => b.0,
        None => ov / 2,
    }
}

fn seam_cost_exec(next: &Frame, cols: &Vec<usize>, step: usize, y: u32) -> (r: u64)
    requires
        step >= 1,
        y < next@.height,
        cols@.len() <= next@.width,
        forall|j: int| 0 <= j < cols@.len() ==> cols@[j] < next@.width,
    ensures
        r == seam_cost_from(next@, cols@, step as nat, y as int, 0),
{
    let w = next.width();
    let h = next.height();
    let raw = next.as_raw();
    let _ = raw.len();
    let ghost n = next@;
    let mut sum: u64 = 0;
    let mut j: usize = 0;
    while j < cols.len()
        invariant
            j <= cols@.len(),
            cols@.len() <= w,
            sum <= 765 * j,
            step >= 1,
            raw@ == n.data,
            raw@.len() == w * h * 4,
            w * h * 4 <= usize::MAX,
            n.width == w,
            y < h,
            forall|i: int| 0 <= i < cols@.len() ==> cols@[i] < w,
            sum + seam_cost_from(n, cols@, step as nat, y as int, j as int)
                == seam_cost_from(n, cols@, step as nat, y as int, 0),
        decreases cols@.len() - j,
    {
        let x = cols[j];
        let ghost rest_next = seam_cost_from(n, cols@, step as nat, y as int, j + step);
        if y >= 1 {
            let i1 = pixel_index(w, h, x, y as usize);
            let i2 = pixel_index(w, h, x, (y - 1) as usize);
            let d = pixel_diff_at(raw, i1, raw, i2);
            assert(seam_cost_from(n, cols@, step as nat, y as int, j as int) == d + rest_next);
            sum = sum + d as u64;
        } else {
            assert(seam_cost_from(n, cols@, step as nat, y as int, j as int) == rest_next);
        }
        if step >= cols.len() - j {
            assert(rest_next == 0);
            assert(seam_cost_from(n, cols@, step as nat, y as int, cols@.len() as int) == 0);
            j = cols.len();
        } else {
            j = j + step;
        }
    }
    sum
}

spec fn best_view(b: Option<(u32, u64)>) -> Option<(nat, nat)> {
    match b {
        Some(v) => Some((v.0 as nat, v.1 as nat)),
        None => None,
    }
}

/// Offset inside the overlap at which the new frame `next` is cut.
pub fn find_seam(next: &Frame, ov: u32, top: u32, cols: &Vec<usize>, cfg: &StitchConfig) -> (r: u32)
    requires
        cfg.valid(),
        top + ov <= next@.height,
        cols@.len() <= next@.width,
        forall|j: int| 0 <= j < cols@.len() ==> cols@[j] < next@.width,
    ensures
        r == seam_row(next@, cols@, *cfg, ov as nat, top as nat),
        r <= ov,
{
    let ghost n = next@;
    let _ = next.height();
    let d = cfg.seam_margin_divisor;
    let (start, end): (u32, u32) = if ov > cfg.min_overlap {
        proof {
            let a = ov as int;
            let b = d as int - 1;
            assert(a * b <= 4294967295 * 4294967295) by (nonlinear_arith)
                requires 0 <= a <= 4294967295, 0 <= b <= 4294967295;
        }
        let e = (ov as u64 * (d as u64 - 1)) / d as u64;
        proof {
            assert(ov * (d - 1) / (d as int) <= ov) by (nonlinear_arith)
                requires d >= 1, ov >= 0;
        }
        (ov / d, e as u32)
    } else {
        (0, ov)
    };
    assert((start as nat, end as nat) == seam_range(ov as nat, *cfg));
    let step = sampling_step(cols.len(), cfg.verify_step_divisor);
    let mut best: Option<(u32, u64)> = None;
    let mut k: u32 = start;
    while k < end
        invariant
            start <= k,
            end <= ov,
            top + ov <= n.height,
            n.height <= u32::MAX,
            step == sample_step(cols@.len(), cfg.verify_step_divisor as nat),
            step >= 1,
            cols@.len() <= n.width,
            forall|j: int| 0 <= j < cols@.len() ==> cols@[j] < n.width,
            n == next@,
            best matches Some(b) ==> b.0 < end,
            seam_from(n, cols@, *cfg, top as nat, k as int, end as int, best_view(best))
                == seam_from(n, cols@, *cfg, top as nat, start as int, end as int, None),
        decreases end - k,
    {
        let c = seam_cost_exec(next, cols, step, top + k);
        let better = match best {
            None => true,
            Some(b) => c < b.1,
        };
        assert(c as nat == seam_cost(n, cols@, *cfg, top + k));
        let ghost old_best = best;
        if better {
            best = Some((k, c));
        }
        assert(seam_from(n, cols@, *cfg, top as nat, k as int, end as int, best_view(old_best))
            == seam_from(n, cols@, *cfg, top as nat, k + 1, end as int, best_view(best)));
        k = k + 1;
    }
    match best {
        Some(b) => b.0,
        None => ov / 2,
    }
}

} // verus!
