//! Window rectangles on the desktop.
use vstd::prelude::*;

verus! {

/// An axis-aligned rectangle in screen coordinates.
#[derive(Debug, Clone, Copy, PartialEq, Eq, Structural)]
pub struct Rect {
    pub x: i32,
    pub y: i32,
    pub width: u32,
    pub height: u32,
}

/// A top-level window as offered for selection.
#[derive(Debug, Clone)]
pub struct WindowInfo {
    pub title: String,
    pub x: i32,
    pub y: i32,
    pub width: u32,
    pub height: u32,
    pub app_name: String,
}

impl Rect {
    /// One past the last column.
    pub open spec fn right(&self) -> int {
        self.x + self.width
    }

    /// One past the last row.
    pub open spec fn bottom(&self) -> int {
        self.y + self.height
    }

    /// The rectangle common to both; `None` when they share no pixel.
    pub fn intersect(&self, other: &Rect) -> (r: Option<Rect>)
        ensures
            ({
                let x1 = if self.x >= other.x { self.x } else { other.x };
                let y1 = if self.y >= other.y { self.y } else { other.y };
                let x2 = if self.right() <= other.right() { self.right() } else { other.right() };
                let y2 = if self.bottom() <= other.bottom() { self.bottom() } else { other.bottom() };
                &&& (r is Some <==> x2 > x1 && y2 > y1)
                &&& r matches Some(i) ==> i.x == x1 && i.y == y1 && i.width == x2 - x1 && i.height == y2 - y1
            }),
    {
        let x1 = if self.x >= other.x { self.x } else { other.x };
        let y1 = if self.y >= other.y { self.y } else { other.y };
        let s_x2 = self.x as i64 + self.width as i64;
        let o_x2 = other.x as i64 + other.width as i64;
        let x2 = if s_x2 <= o_x2 { s_x2 } else { o_x2 };
        let s_y2 = self.y as i64 + self.height as i64;
        let o_y2 = other.y as i64 + other.height as i64;
        let y2 = if s_y2 <= o_y2 { s_y2 } else { o_y2 };
        if x2 > x1 as i64 && y2 > y1 as i64 {
            Some(Rect { x: x1, y: y1, width: (x2 - x1 as i64) as u32, height: (y2 - y1 as i64) as u32 })
        } else {
            None
        }
    }

    /// `self` lies wholly within `other`.
    pub fn is_inside(&self, other: &Rect) -> (r: bool)
        ensures
            r == (self.x >= other.x && self.y >= other.y && self.right() <= other.right()
                && self.bottom() <= other.bottom()),
    {
        let s_x2 = self.x as i64 + self.width as i64;
        let s_y2 = self.y as i64 + self.height as i64;
        let o_x2 = other.x as i64 + other.width as i64;
        let o_y2 = other.y as i64 + other.height as i64;
        self.x >= other.x && self.y >= other.y && s_x2 <= o_x2 && s_y2 <= o_y2
    }
}

/// A window as the system reports it, before filtering.
#[derive(Debug, Clone)]
pub struct WindowCandidate {
    pub title: String,
    pub app_name: String,
    pub x: i32,
    pub y: i32,
    pub width: u32,
    pub height: u32,
    pub minimized: bool,
}

/// The screen assumed when no monitor is known.
pub const FALLBACK_SCREEN_SIZE: u32 = 10000;

/// Smallest left edge among the first `n` of `ms`.
pub open spec fn min_left(ms: Seq<Rect>, n: int) -> int
    decreases n,
{
    if n <= 0 { i32::MAX as int } else {
        let m = min_left(ms, n - 1);
        if ms[n - 1].x < m { ms[n - 1].x as int } else { m }
    }
}

/// Smallest top edge among the first `n` of `ms`.
pub open spec fn min_top(ms: Seq<Rect>, n: int) -> int
    decreases n,
{
    if n <= 0 { i32::MAX as int } else {
        let m = min_top(ms, n - 1);
        if ms[n - 1].y < m { ms[n - 1].y as int } else { m }
    }
}

/// Largest right edge among the first `n` of `ms`.
pub open spec fn max_right(ms: Seq<Rect>, n: int) -> int
    decreases n,
{
    if n <= 0 { i32::MIN as int } else {
        let m = max_right(ms, n - 1);
        if ms[n - 1].right() > m { ms[n - 1].right() } else { m }
    }
}

/// Largest bottom edge among the first `n` of `ms`.
pub open spec fn max_bottom(ms: Seq<Rect>, n: int) -> int
    decreases n,
{
    if n <= 0 { i32::MIN as int } else {
        let m = max_bottom(ms, n - 1);
        if ms[n - 1].bottom() > m { ms[n - 1].bottom() } else { m }
    }
}

/// A span as a width: zero when it does not fit.
pub open spec fn span(lo: int, hi: int) -> u32 {
    if 0 <= hi - lo <= u32::MAX { (hi - lo) as u32 } else { 0 }
}

/// The rectangle that holds every monitor; a large fixed one when there is none.
pub open spec fn desktop_bounds(ms: Seq<Rect>) -> Rect {
    if ms.len() == 0 {
        Rect { x: 0, y: 0, width: FALLBACK_SCREEN_SIZE, height: FALLBACK_SCREEN_SIZE }
    } else {
        let n = ms.len() as int;
        Rect {
            x: min_left(ms, n) as i32,
            y: min_top(ms, n) as i32,
            width: span(min_left(ms, n), max_right(ms, n)),
            height: span(min_top(ms, n), max_bottom(ms, n)),
        }
    }
}

/// The bounding rectangle of all monitors.
pub fn screen_bounds(monitors: &Vec<Rect>) -> (r: Rect)
    ensures
        r == desktop_bounds(monitors@),
{
    if monitors.len() == 0 {
        return Rect { x: 0, y: 0, width: FALLBACK_SCREEN_SIZE, height: FALLBACK_SCREEN_SIZE };
    }
    let ghost ms = monitors@;
    let mut min_x: i32 = i32::MAX;
    let mut min_y: i32 = i32::MAX;
    let mut max_x: i64 = i32::MIN as i64;
    let mut max_y: i64 = i32::MIN as i64;
    let mut i: usize = 0;
    while i < monitors.len()
        invariant
            i <= ms.len(),
            ms == monitors@,
            min_x == min_left(ms, i as int),
            min_y == min_top(ms, i as int),
            max_x == max_right(ms, i as int),
            max_y == max_bottom(ms, i as int),
            i32::MIN <= max_x <= i32::MAX + u32::MAX,
            i32::MIN <= max_y <= i32::MAX + u32::MAX,
        decreases ms.len() - i,
    {
        let m = monitors[i];
        if m.x < min_x {
            min_x = m.x;
        }
        if m.y < min_y {
            min_y = m.y;
        }
        let right = m.x as i64 + m.width as i64;
        let bottom = m.y as i64 + m.height as i64;
        if right > max_x {
            max_x = right;
        }
        if bottom > max_y {
            max_y = bottom;
        }
        i = i + 1;
    }
    let dx = max_x - min_x as i64;
    let dy = max_y - min_y as i64;
    let width: u32 = if 0 <= dx && dx <= u32::MAX as i64 { dx as u32 } else { 0 };
    let height: u32 = if 0 <= dy && dy <= u32::MAX as i64 { dy as u32 } else { 0 };
    Rect { x: min_x, y: min_y, width, height }
}

/// Docks, menus and other overlays that cover windows without hiding them.
pub open spec fn is_system_overlay(name: Seq<char>) -> bool {
    ||| name == "\u{7a0b}\u{5e8f}\u{575e}"@
    ||| name == "Dock"@
    ||| name == "Window Server"@
    ||| name == "Control Center"@
    ||| name == "Notification Center"@
    ||| name == "Spotlight"@
}

/// The rectangle a candidate occupies.
pub open spec fn candidate_rect(c: WindowCandidate) -> Rect {
    Rect { x: c.x, y: c.y, width: c.width, height: c.height }
}

/// The rectangle common to `a` and `b`, when there is one.
pub open spec fn overlap_of(a: Rect, b: Rect) -> Option<Rect> {
    let x1 = if a.x >= b.x { a.x } else { b.x };
    let y1 = if a.y >= b.y { a.y } else { b.y };
    let x2 = if a.right() <= b.right() { a.right() } else { b.right() };
    let y2 = if a.bottom() <= b.bottom() { a.bottom() } else { b.bottom() };
    if x2 > x1 && y2 > y1 {
        Some(Rect { x: x1, y: y1, width: (x2 - x1) as u32, height: (y2 - y1) as u32 })
    } else {
        None
    }
}

pub open spec fn rect_within(a: Rect, b: Rect) -> bool {
    a.x >= b.x && a.y >= b.y && a.right() <= b.right() && a.bottom() <= b.bottom()
}

/// A candidate is listed when it is shown, not empty, on screen, and not
/// wholly behind a window listed before it.
pub open spec fn is_listed(c: WindowCandidate, screen: Rect, blockers: Seq<Rect>) -> bool {
    &&& !c.minimized
    &&& c.width != 0
    &&& c.height != 0
    &&& overlap_of(candidate_rect(c), screen) matches Some(v)
        && !(exists|k: int| 0 <= k < blockers.len() && rect_within(v, #[trigger] blockers[k]))
}

/// Windows listed and occluding rectangles gathered over the first `n` candidates.
pub open spec fn window_scan(cs: Seq<WindowCandidate>, screen: Rect, n: int) -> (Seq<WindowInfo>, Seq<Rect>)
    decreases n,
{
    if n <= 0 {
        (seq![], seq![])
    } else {
        let prev = window_scan(cs, screen, n - 1);
        let c = cs[n - 1];
        if is_listed(c, screen, prev.1) {
            let info = WindowInfo { title: c.title, x: c.x, y: c.y, width: c.width, height: c.height, app_name: c.app_name };
            let blockers = if is_system_overlay(c.app_name@) { prev.1 } else { prev.1.push(candidate_rect(c)) };
            (prev.0.push(info), blockers)
        } else {
            prev
        }
    }
}

fn is_overlay_name(name: &String) -> (r: bool)
    ensures
        r == is_system_overlay(name@),
{
    *name == "\u{7a0b}\u{5e8f}\u{575e}".to_owned()
        || *name == "Dock".to_owned()
        || *name == "Window Server".to_owned()
        || *name == "Control Center".to_owned()
        || *name == "Notification Center".to_owned()
        || *name == "Spotlight".to_owned()
}

/// The windows worth offering for selection, front to back: shown, not
/// empty, on `screen`, and not wholly covered by a window in front of them
/// (overlays such as the dock cover nothing).
pub fn visible_windows(candidates: &Vec<WindowCandidate>, screen: Rect) -> (r: Vec<WindowInfo>)
    ensures
        r@ == window_scan(candidates@, screen, candidates@.len() as int).0,
{
    let ghost cs = candidates@;
    let n = candidates.len();
    let mut results: Vec<WindowInfo> = Vec::new();
    let mut blockers: Vec<Rect> = Vec::new();
    let mut i: usize = 0;
    while i < n
        invariant
            i <= n,
            n == cs.len(),
            cs == candidates@,
            (results@, blockers@) == window_scan(cs, screen, i as int),
        decreases n - i,
    {
        let c = &candidates[i];
        i = i + 1;
        if c.minimized || c.width == 0 || c.height == 0 {
            continue;
        }
        let current = Rect { x: c.x, y: c.y, width: c.width, height: c.height };
        let valid = match current.intersect(&screen) {
            Some(v) => v,
            None => {
                continue;
            },
        };
        let mut covered = false;
        let mut k: usize = 0;
        while k < blockers.len()
            invariant
                k <= blockers@.len(),
                covered <==> exists|j: int| 0 <= j < k && rect_within(valid, #[trigger] blockers@[j]),
            decreases blockers@.len() - k,
        {
            if valid.is_inside(&blockers[k]) {
                covered = true;
            }
            k = k + 1;
        }
        if covered {
            continue;
        }
        if !is_overlay_name(&c.app_name) {
            blockers.push(current);
        }
        results.push(WindowInfo {
            title: c.title.clone(),
            x: c.x,
            y: c.y,
            width: c.width,
            height: c.height,
            app_name: c.app_name.clone(),
        });
    }
    results
}

} // verus!
