use minnowsnap::capture::{crop_physical, CaptureService};
use minnowsnap::frame::Frame;
use minnowsnap::window::{screen_bounds, visible_windows, Rect, WindowCandidate};

fn cand(app: &str, x: i32, y: i32, w: u32, h: u32) -> WindowCandidate {
    WindowCandidate {
        title: format!("{app} window"),
        app_name: app.to_string(),
        x,
        y,
        width: w,
        height: h,
        minimized: false,
    }
}

#[test]
fn screen_bounds_cover_all_monitors() {
    assert_eq!(screen_bounds(&vec![]), Rect { x: 0, y: 0, width: 10000, height: 10000 });
    let ms = vec![
        Rect { x: 0, y: 0, width: 1920, height: 1080 },
        Rect { x: -1280, y: 200, width: 1280, height: 1024 },
    ];
    assert_eq!(screen_bounds(&ms), Rect { x: -1280, y: 0, width: 3200, height: 1224 });
}

#[test]
fn hidden_and_covered_windows_are_dropped() {
    let screen = Rect { x: 0, y: 0, width: 1920, height: 1080 };
    let mut minimized = cand("Mail", 10, 10, 100, 100);
    minimized.minimized = true;
    let cs = vec![
        cand("Editor", 0, 0, 1000, 800),
        cand("Term", 100, 100, 300, 300),
        minimized,
        cand("Empty", 5, 5, 0, 40),
        cand("Offscreen", 3000, 0, 100, 100),
        cand("Browser", 900, 100, 600, 600),
    ];
    let out = visible_windows(&cs, screen);
    let names: Vec<&str> = out.iter().map(|w| w.app_name.as_str()).collect();
    assert_eq!(names, vec!["Editor", "Browser"]);
    assert_eq!(out[1].x, 900);
    assert_eq!(out[1].width, 600);
    assert_eq!(out[0].title, "Editor window");
}

#[test]
fn overlays_cover_nothing() {
    let screen = Rect { x: 0, y: 0, width: 1920, height: 1080 };
    let cs = vec![cand("Dock", 0, 0, 1920, 1080), cand("Notes", 50, 50, 200, 200)];
    let out = visible_windows(&cs, screen);
    assert_eq!(out.len(), 2);
    assert_eq!(out[1].app_name, "Notes");
}

fn numbered(w: u32, h: u32) -> Frame {
    let mut data = Vec::new();
    for y in 0..h {
        for x in 0..w {
            data.extend_from_slice(&[x as u8, y as u8, 7, 255]);
        }
    }
    Frame::from_raw(w, h, data).unwrap()
}

#[test]
fn crop_takes_the_requested_rectangle() {
    let img = numbered(10, 8);
    let c = crop_physical(&img, 2, 3, 4, 2).unwrap();
    assert_eq!((c.width(), c.height()), (4, 2));
    assert_eq!(&c.as_raw()[0..4], &[2, 3, 7, 255]);
    assert_eq!(&c.as_raw()[(4 + 3) * 4..(4 + 3) * 4 + 4], &[5, 4, 7, 255]);
}

#[test]
fn crop_is_clamped_to_the_image() {
    let img = numbered(10, 8);
    let c = crop_physical(&img, -3, 6, 100, 100).unwrap();
    assert_eq!((c.width(), c.height()), (10, 2));
    assert_eq!(&c.as_raw()[0..4], &[0, 6, 7, 255]);
    assert!(crop_physical(&img, 10, 0, 5, 5).is_none());
    assert!(crop_physical(&img, 0, 0, 0, 5).is_none());
    assert!(crop_physical(&img, 0, 0, -4, 5).is_none());
}

#[test]
fn image_sources() {
    let s = CaptureService::image_source("");
    assert!(s.use_last_capture);
    assert_eq!(s.file, "");
    let s = CaptureService::image_source("image://minnow/preview?id=3");
    assert!(s.use_last_capture);
    let s = CaptureService::image_source("file:///tmp/shot.png");
    assert!(!s.use_last_capture);
    assert_eq!(s.file, "/tmp/shot.png");
    let s = CaptureService::image_source("/tmp/x.png");
    assert!(!s.use_last_capture);
    assert_eq!(s.file, "/tmp/x.png");
    assert!(!CaptureService::image_source("image://minnow").use_last_capture);
}
