//! Scroll capture: assembling a tall image out of overlapping screen frames,
//! plus the small pieces of settings and window geometry around it.
pub mod align;
pub mod capture;
pub mod encode;
pub mod fonts;
pub mod frame;
pub mod hotkey;
pub mod ocr_models;
pub mod resample;
pub mod scroll_worker;
pub mod settings;
pub mod shortcut;
pub mod stitcher;
pub mod storage;
pub mod window;
