use minnowsnap::hotkey::{HotkeyIds, HotkeyService};
use minnowsnap::ocr_models::{check_models_ready, get_model_source, ModelManager, OcrModelType, KEYS_NAME};
use minnowsnap::settings::{AppSettings, SettingsManager};
use minnowsnap::storage::{clean_url_path, clean_url_path_for};
use minnowsnap::window::Rect;

fn manager() -> SettingsManager {
    SettingsManager::new(AppSettings::default(), "/tmp/config.toml".to_string())
}

#[test]
fn settings_defaults() {
    let c = AppSettings::default();
    assert_eq!(c.general.theme, "System");
    assert_eq!(c.general.language, "System");
    assert_eq!(c.general.font_family, None);
    assert!(!c.general.auto_start);
    assert_eq!(c.shortcuts.capture, "F1");
    assert_eq!(c.shortcuts.quick_capture, "F2");
    assert_eq!(c.output.save_path, None);
    assert!(c.output.oxipng_enabled);
    assert!(!c.ocr.enabled);
    assert_eq!(c.ocr.model_type, "Mobile");
}

#[test]
fn settings_setters_change_one_field() {
    let mut m = manager();
    m.set_save_path("/home/me/shots".to_string());
    m.set_theme("Dark".to_string());
    m.set_language("de".to_string());
    m.set_font_family("Noto Sans".to_string());
    m.set_auto_start(true);
    m.set_oxipng_enabled(false);
    m.set_capture_shortcut("Ctrl+Shift+A".to_string());
    m.set_quick_capture_shortcut("Ctrl+Shift+Q".to_string());
    m.set_ocr_enabled(true);
    let c = m.get();
    assert_eq!(c.output.save_path.as_deref(), Some("/home/me/shots"));
    assert_eq!(c.general.theme, "Dark");
    assert_eq!(c.general.language, "de");
    assert_eq!(c.general.font_family.as_deref(), Some("Noto Sans"));
    assert!(c.general.auto_start);
    assert!(!c.output.oxipng_enabled);
    assert_eq!(c.shortcuts.capture, "Ctrl+Shift+A");
    assert_eq!(c.shortcuts.quick_capture, "Ctrl+Shift+Q");
    assert!(c.ocr.enabled);
    assert_eq!(c.ocr.model_type, "Mobile");
    assert_eq!(m.config_path(), "/tmp/config.toml");
}

#[test]
fn empty_texts_clear_optional_settings() {
    let mut m = manager();
    m.set_save_path("/x".to_string());
    m.set_font_family("Mono".to_string());
    m.set_save_path(String::new());
    m.set_font_family(String::new());
    let c = m.get();
    assert_eq!(c.output.save_path, None);
    assert_eq!(c.general.font_family, None);
}

#[test]
fn rect_intersection() {
    let a = Rect { x: 0, y: 0, width: 100, height: 50 };
    let b = Rect { x: 60, y: -10, width: 100, height: 30 };
    assert_eq!(a.intersect(&b), Some(Rect { x: 60, y: 0, width: 40, height: 20 }));
    let c = Rect { x: 100, y: 0, width: 10, height: 10 };
    assert_eq!(a.intersect(&c), None);
    let far = Rect { x: i32::MAX, y: i32::MIN, width: u32::MAX, height: u32::MAX };
    assert_eq!(far.intersect(&far), Some(far));
}

#[test]
fn rect_containment() {
    let outer = Rect { x: -5, y: -5, width: 20, height: 20 };
    assert!(Rect { x: 0, y: 0, width: 15, height: 15 }.is_inside(&outer));
    assert!(!Rect { x: 0, y: 0, width: 16, height: 15 }.is_inside(&outer));
    assert!(outer.is_inside(&outer));
}

#[test]
fn url_paths_are_cleaned() {
    assert_eq!(clean_url_path("file:///home/me/a.png"), "/home/me/a.png");
    assert_eq!(clean_url_path("/home/me/a.png"), "/home/me/a.png");
    assert_eq!(clean_url_path("file:/x"), "file:/x");
    assert_eq!(clean_url_path(""), "");
    assert_eq!(clean_url_path_for("file:///C:/pics/a.png", true), "C:/pics/a.png");
    assert_eq!(clean_url_path_for("file:///C:/pics/a.png", false), "/C:/pics/a.png");
}

#[test]
fn model_sources_per_family() {
    let s = get_model_source(OcrModelType::Server);
    assert_eq!(s.det_name, "ch_PP-OCRv5_server_det.onnx");
    assert_eq!(s.rec_name, "ch_PP-OCRv5_rec_server_infer.onnx");
    let m = get_model_source(OcrModelType::Mobile);
    assert_eq!(m.det_name, "ch_PP-OCRv5_mobile_det.onnx");
    assert!(m.rec_url.ends_with("ch_PP-OCRv5_rec_mobile_infer.onnx"));
    assert_eq!(OcrModelType::default(), OcrModelType::Server);
}

#[test]
fn models_ready_only_when_all_present() {
    let all = vec![
        "ch_PP-OCRv5_mobile_det.onnx".to_string(),
        "ch_PP-OCRv5_rec_mobile_infer.onnx".to_string(),
        KEYS_NAME.to_string(),
        "notes.txt".to_string(),
    ];
    assert!(check_models_ready(OcrModelType::Mobile, &all));
    assert!(!check_models_ready(OcrModelType::Server, &all));
    assert!(!check_models_ready(OcrModelType::Mobile, &all[1..].to_vec()));
    let mgr = ModelManager::new("/models".to_string());
    assert!(mgr.check_models_existence(&[], &vec![]));
    assert!(!mgr.check_models_existence(&["a"], &vec!["b".to_string()]));
    assert_eq!(mgr.save_dir(), "/models");
}

#[test]
fn hotkey_ids_and_triggers() {
    let mut ids = HotkeyIds::default();
    HotkeyService::record_registration(&mut ids, true, Some(7));
    HotkeyService::record_registration(&mut ids, false, Some(9));
    assert_eq!(ids, HotkeyIds { screen_capture: Some(7), quick_capture: Some(9) });
    let t = HotkeyService::triggered(&ids, 7, true);
    assert!(t.screen_capture && !t.quick_capture);
    assert!(!HotkeyService::triggered(&ids, 7, false).screen_capture);
    HotkeyService::record_registration(&mut ids, true, None);
    assert!(!HotkeyService::triggered(&ids, 7, true).screen_capture);
    assert!(HotkeyService::triggered(&ids, 9, true).quick_capture);
}
