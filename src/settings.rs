//! Application settings: their defaults and the changes the settings page makes.
use vstd::prelude::*;

verus! {

/// Look and start-up behaviour.
#[derive(Debug, Clone)]
pub struct GeneralSettings {
    pub theme: String,
    pub language: String,
    pub font_family: Option<String>,
    pub auto_start: bool,
}

impl Default for GeneralSettings {
    fn default() -> (r: GeneralSettings)
        ensures
            r.theme@ == "System"@,
            r.language@ == "System"@,
            r.font_family is None,
            !r.auto_start,
    {
        GeneralSettings {
            theme: "System".to_owned(),
            language: "System".to_owned(),
            font_family: None,
            auto_start: false,
        }
    }
}

/// Key sequences of the two capture shortcuts.
#[derive(Debug, Clone)]
pub struct ShortcutSettings {
    pub capture: String,
    pub quick_capture: String,
}

impl Default for ShortcutSettings {
    fn default() -> (r: ShortcutSettings)
        ensures
            r.capture@ == "F1"@,
            r.quick_capture@ == "F2"@,
    {
        ShortcutSettings { capture: "F1".to_owned(), quick_capture: "F2".to_owned() }
    }
}

/// Where captures are saved and whether they are recompressed.
#[derive(Debug, Clone)]
pub struct OutputSettings {
    pub save_path: Option<String>,
    pub oxipng_enabled: bool,
}

impl Default for OutputSettings {
    fn default() -> (r: OutputSettings)
        ensures
            r.save_path is None,
            r.oxipng_enabled,
    {
        OutputSettings { save_path: None, oxipng_enabled: true }
    }
}

/// Text recognition.
#[derive(Debug, Clone)]
pub struct OcrSettings {
    pub enabled: bool,
    pub model_type: String,
}

impl Default for OcrSettings {
    fn default() -> (r: OcrSettings)
        ensures
            !r.enabled,
            r.model_type@ == "Mobile"@,
    {
        OcrSettings { enabled: false, model_type: "Mobile".to_owned() }
    }
}

/// All settings.
#[derive(Debug, Clone)]
pub struct AppSettings {
    pub general: GeneralSettings,
    pub shortcuts: ShortcutSettings,
    pub output: OutputSettings,
    pub ocr: OcrSettings,
}

/// The settings that every section starts with.
pub open spec fn is_default_settings(c: AppSettings) -> bool {
    &&& c.general.theme@ == "System"@
    &&& c.general.language@ == "System"@
    &&& c.general.font_family is None
    &&& !c.general.auto_start
    &&& c.shortcuts.capture@ == "F1"@
    &&& c.shortcuts.quick_capture@ == "F2"@
    &&& c.output.save_path is None
    &&& c.output.oxipng_enabled
    &&& !c.ocr.enabled
    &&& c.ocr.model_type@ == "Mobile"@
}

impl Default for AppSettings {
    fn default() -> (r: AppSettings)
        ensures
            is_default_settings(r),
    {
        AppSettings {
            general: GeneralSettings::default(),
            shortcuts: ShortcutSettings::default(),
            output: OutputSettings::default(),
            ocr: OcrSettings::default(),
        }
    }
}

/// An empty text stands for "not set".
pub open spec fn optional_text(s: String) -> Option<String> {
    if s@.len() == 0 { None } else { Some(s) }
}

fn copy_text(s: &Option<String>) -> (r: Option<String>)
    ensures
        r == *s,
{
    match s {
        Some(t) => Some(t.clone()),
        None => None,
    }
}

fn to_optional(s: String) -> (r: Option<String>)
    ensures
        r == optional_text(s),
{
    if s.as_str().is_empty() { None } else { Some(s) }
}

/// The settings in force and the file that holds them.
pub struct SettingsManager {
    config: AppSettings,
    config_path: String,
}

impl SettingsManager {
    /// The settings in force.
    pub closed spec fn settings(&self) -> AppSettings {
        self.config
    }

    /// The file the settings belong in.
    pub closed spec fn path(&self) -> String {
        self.config_path
    }

    /// A manager for `config` read from (or to be written to) `config_path`.
    pub fn new(config: AppSettings, config_path: String) -> (r: SettingsManager)
        ensures
            r.settings() == config,
            r.path() == config_path,
    {
        SettingsManager { config, config_path }
    }

    /// A copy of the settings.
    pub fn get(&self) -> (r: AppSettings)
        ensures
            r == self.settings(),
    {
        let c = &self.config;
        AppSettings {
            general: GeneralSettings {
                theme: c.general.theme.clone(),
                language: c.general.language.clone(),
                font_family: copy_text(&c.general.font_family),
                auto_start: c.general.auto_start,
            },
            shortcuts: ShortcutSettings {
                capture: c.shortcuts.capture.clone(),
                quick_capture: c.shortcuts.quick_capture.clone(),
            },
            output: OutputSettings {
                save_path: copy_text(&c.output.save_path),
                oxipng_enabled: c.output.oxipng_enabled,
            },
            ocr: OcrSettings { enabled: c.ocr.enabled, model_type: c.ocr.model_type.clone() },
        }
    }

    /// The file the settings belong in.
    pub fn config_path(&self) -> (r: &String)
        ensures
            *r == self.path(),
    {
        &self.config_path
    }

    /// Sets the save directory; an empty path clears it.
    pub fn set_save_path(&mut self, path: String)
        ensures
            final(self).path() == old(self).path(),
            final(self).settings() == (AppSettings {
                output: OutputSettings { save_path: optional_text(path), ..old(self).settings().output },
                ..old(self).settings()
            }),
    {
        self.config.output.save_path = to_optional(path);
    }

    /// Turns recompression of saved captures on or off.
    pub fn set_oxipng_enabled(&mut self, enabled: bool)
        ensures
            final(self).path() == old(self).path(),
            final(self).settings() == (AppSettings {
                output: OutputSettings { oxipng_enabled: enabled, ..old(self).settings().output },
                ..old(self).settings()
            }),
    {
        self.config.output.oxipng_enabled = enabled;
    }

    /// Sets the font family; an empty name clears it.
    pub fn set_font_family(&mut self, font_family: String)
        ensures
            final(self).path() == old(self).path(),
            final(self).settings() == (AppSettings {
                general: GeneralSettings { font_family: optional_text(font_family), ..old(self).settings().general },
                ..old(self).settings()
            }),
    {
        self.config.general.font_family = to_optional(font_family);
    }

    /// Sets the colour theme.
    pub fn set_theme(&mut self, theme: String)
        ensures
            final(self).path() == old(self).path(),
            final(self).settings() == (AppSettings {
                general: GeneralSettings { theme, ..old(self).settings().general },
                ..old(self).settings()
            }),
    {
        self.config.general.theme = theme;
    }

    /// Sets the interface language.
    pub fn set_language(&mut self, language: String)
        ensures
            final(self).path() == old(self).path(),
            final(self).settings() == (AppSettings {
                general: GeneralSettings { language, ..old(self).settings().general },
                ..old(self).settings()
            }),
    {
        self.config.general.language = language;
    }

    /// Turns starting with the session on or off.
    pub fn set_auto_start(&mut self, enabled: bool)
        ensures
            final(self).path() == old(self).path(),
            final(self).settings() == (AppSettings {
                general: GeneralSettings { auto_start: enabled, ..old(self).settings().general },
                ..old(self).settings()
            }),
    {
        self.config.general.auto_start = enabled;
    }

    /// Sets the key sequence of the capture shortcut.
    pub fn set_capture_shortcut(&mut self, shortcut: String)
        ensures
            final(self).path() == old(self).path(),
            final(self).settings() == (AppSettings {
                shortcuts: ShortcutSettings { capture: shortcut, ..old(self).settings().shortcuts },
                ..old(self).settings()
            }),
    {
        self.config.shortcuts.capture = shortcut;
    }

    /// Sets the key sequence of the quick-capture shortcut.
    pub fn set_quick_capture_shortcut(&mut self, shortcut: String)
        ensures
            final(self).path() == old(self).path(),
            final(self).settings() == (AppSettings {
                shortcuts: ShortcutSettings { quick_capture: shortcut, ..old(self).settings().shortcuts },
                ..old(self).settings()
            }),
    {
        self.config.shortcuts.quick_capture = shortcut;
    }

    /// Turns text recognition on or off.
    pub fn set_ocr_enabled(&mut self, enabled: bool)
        ensures
            final(self).path() == old(self).path(),
            final(self).settings() == (AppSettings {
                ocr: OcrSettings { enabled, ..old(self).settings().ocr },
                ..old(self).settings()
            }),
    {
        self.config.ocr.enabled = enabled;
    }
}

} // verus!
