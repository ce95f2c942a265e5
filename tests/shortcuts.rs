use minnowsnap::shortcut::{
    ShortcutHelperRust, ALT_MODIFIER, CONTROL_MODIFIER, KEY_BACKSPACE, KEY_CONTROL, KEY_DELETE, KEY_ESCAPE,
    KEY_F1, KEY_SPACE, META_MODIFIER, SHIFT_MODIFIER,
};

#[test]
fn modifiers_and_key_are_joined() {
    let h = ShortcutHelperRust;
    assert_eq!(h.get_key_sequence(0x41, CONTROL_MODIFIER | SHIFT_MODIFIER, "a", false), "Ctrl+Shift+A");
    assert_eq!(h.get_key_sequence(0x41, 0, "a", false), "A");
    assert_eq!(
        h.get_key_sequence(0x53, META_MODIFIER | ALT_MODIFIER | CONTROL_MODIFIER, "s", true),
        "Ctrl+Alt+Cmd+S"
    );
    assert_eq!(h.get_key_sequence(0x53, META_MODIFIER, "s", false), "Meta+S");
}

#[test]
fn function_and_space_keys_have_names() {
    let h = ShortcutHelperRust;
    assert_eq!(h.get_key_sequence(KEY_F1, 0, "", false), "F1");
    assert_eq!(h.get_key_sequence(KEY_F1 + 11, ALT_MODIFIER, "", false), "Alt+F12");
    assert_eq!(h.get_key_sequence(KEY_SPACE, CONTROL_MODIFIER, " ", false), "Ctrl+Space");
}

#[test]
fn special_keys() {
    let h = ShortcutHelperRust;
    assert_eq!(h.get_key_sequence(KEY_CONTROL, CONTROL_MODIFIER, "", false), "");
    assert_eq!(h.get_key_sequence(KEY_ESCAPE, 0, "", false), "");
    assert_eq!(h.get_key_sequence(KEY_BACKSPACE, 0, "", false), "DELETE_Request");
    assert_eq!(h.get_key_sequence(KEY_DELETE, SHIFT_MODIFIER, "", false), "DELETE_Request");
    assert_eq!(h.get_key_sequence(0x01000099, CONTROL_MODIFIER, "", false), "");
}
