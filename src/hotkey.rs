//! Bookkeeping of the two global capture shortcuts.
use vstd::prelude::*;

verus! {

/// Ids of the registered shortcuts; `None` when one is not registered.
#[derive(Debug, Clone, Copy, PartialEq, Eq, Structural)]
pub struct HotkeyIds {
    pub screen_capture: Option<u32>,
    pub quick_capture: Option<u32>,
}

impl Default for HotkeyIds {
    fn default() -> (r: HotkeyIds)
        ensures
            r.screen_capture is None,
            r.quick_capture is None,
    {
        HotkeyIds { screen_capture: None, quick_capture: None }
    }
}

/// The captures that one hotkey event starts.
#[derive(Debug, Clone, Copy, PartialEq, Eq, Structural)]
pub struct HotkeyTriggers {
    pub screen_capture: bool,
    pub quick_capture: bool,
}

/// Decisions around the global shortcuts; registering them is the host's part.
pub struct HotkeyService;

impl HotkeyService {
    /// Notes the outcome of (re)registering the screen or the quick shortcut:
    /// its new id, or `None` when it is not registered any more.
    pub fn record_registration(ids: &mut HotkeyIds, is_screen: bool, id: Option<u32>)
        ensures
            is_screen ==> *final(ids) == (HotkeyIds { screen_capture: id, ..*old(ids) }),
            !is_screen ==> *final(ids) == (HotkeyIds { quick_capture: id, ..*old(ids) }),
    {
        if is_screen {
            ids.screen_capture = id;
        } else {
            ids.quick_capture = id;
        }
    }

    /// The captures a hotkey event starts: only a press does, each for the
    /// shortcut whose id it carries.
    pub fn triggered(ids: &HotkeyIds, event_id: u32, pressed: bool) -> (r: HotkeyTriggers)
        ensures
            r.screen_capture == (pressed && ids.screen_capture == Some(event_id)),
            r.quick_capture == (pressed && ids.quick_capture == Some(event_id)),
    {
        let screen = match ids.screen_capture {
            Some(id) => pressed && id == event_id,
            None => false,
        };
        let quick = match ids.quick_capture {
            Some(id) => pressed && id == event_id,
            None => false,
        };
        HotkeyTriggers { screen_capture: screen, quick_capture: quick }
    }
}

} // verus!
