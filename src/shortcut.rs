//! Turning a key press in the shortcut editor into the text of a key sequence.
use vstd::prelude::*;
use vstd::string::StringExecFns;

verus! {

pub const SHIFT_MODIFIER: i32 = 0x02000000;
pub const CONTROL_MODIFIER: i32 = 0x04000000;
pub const ALT_MODIFIER: i32 = 0x08000000;
pub const META_MODIFIER: i32 = 0x10000000;

pub const KEY_SPACE: i32 = 0x20;
pub const KEY_ESCAPE: i32 = 0x01000000;
pub const KEY_BACKSPACE: i32 = 0x01000003;
pub const KEY_DELETE: i32 = 0x01000007;
pub const KEY_SHIFT: i32 = 0x01000020;
pub const KEY_CONTROL: i32 = 0x01000021;
pub const KEY_META: i32 = 0x01000022;
pub const KEY_ALT: i32 = 0x01000023;
pub const KEY_F1: i32 = 0x01000030;
pub const KEY_F12: i32 = 0x0100003b;

/// The uppercase form of a text.
pub uninterp spec fn upper_of(s: Seq<char>) -> Seq<char>;

/// Relies on `str::to_uppercase`: the uppercase form depends on the
/// characters alone.
#[verifier::external_body]
fn uppercase(s: &str) -> (r: String)
    ensures
        r@ == upper_of(s@),
{
    s.to_uppercase()
}

/// `parts` with `sep` between each two.
pub open spec fn joined(parts: Seq<Seq<char>>, sep: Seq<char>) -> Seq<char>
    decreases parts.len(),
{
    if parts.len() == 0 {
        seq![]
    } else if parts.len() == 1 {
        parts[0]
    } else {
        joined(parts.drop_last(), sep) + sep + parts.last()
    }
}

pub open spec fn texts(v: Seq<String>) -> Seq<Seq<char>> {
    Seq::new(v.len(), |i: int| v[i]@)
}

/// The parts in order with `+` between each two.
fn join_with_plus(parts: &Vec<String>) -> (r: String)
    ensures
        r@ == joined(texts(parts@), "+"@),
{
    let mut out = String::new();
    let mut i: usize = 0;
    while i < parts.len()
        invariant
            i <= parts@.len(),
            out@ == joined(texts(parts@.subrange(0, i as int)), "+"@),
        decreases parts@.len() - i,
    {
        let ghost before = texts(parts@.subrange(0, i as int));
        if i > 0 {
            out.append("+");
        }
        out.append(parts[i].as_str());
        proof {
            let now = texts(parts@.subrange(0, i + 1));
            assert(now.drop_last() =~= before);
            assert(now.last() == parts@[i as int]@);
            if i == 0 {
                assert(out@ =~= now[0]);
            }
        }
        i = i + 1;
    }
    assert(parts@.subrange(0, parts@.len() as int) =~= parts@);
    out
}

/// The modifier names held down, in the order Ctrl, Alt, Shift, then Cmd
/// (macOS) or Meta.
pub open spec fn modifier_names(modifiers: i32, macos: bool) -> Seq<Seq<char>> {
    let a: Seq<Seq<char>> = if modifiers & CONTROL_MODIFIER != 0 { seq!["Ctrl"@] } else { seq![] };
    let b: Seq<Seq<char>> = if modifiers & ALT_MODIFIER != 0 { a.push("Alt"@) } else { a };
    let c: Seq<Seq<char>> = if modifiers & SHIFT_MODIFIER != 0 { b.push("Shift"@) } else { b };
    if modifiers & META_MODIFIER != 0 { c.push(if macos { "Cmd"@ } else { "Meta"@ }) } else { c }
}

/// Name of function key `n` (1 to 12).
pub open spec fn function_key_name(n: int) -> Seq<char> {
    if n == 1 { "F1"@ }
    else if n == 2 { "F2"@ }
    else if n == 3 { "F3"@ }
    else if n == 4 { "F4"@ }
    else if n == 5 { "F5"@ }
    else if n == 6 { "F6"@ }
    else if n == 7 { "F7"@ }
    else if n == 8 { "F8"@ }
    else if n == 9 { "F9"@ }
    else if n == 10 { "F10"@ }
    else if n == 11 { "F11"@ }
    else { "F12"@ }
}

/// The name of the key: a function key, Space, or the key's text in uppercase.
pub open spec fn key_name(key: i32, text: Seq<char>) -> Seq<char> {
    if KEY_F1 <= key <= KEY_F12 {
        function_key_name(key - KEY_F1 + 1)
    } else if key == KEY_SPACE {
        "Space"@
    } else {
        upper_of(text)
    }
}

/// The text of the key sequence for a press of `key` with `modifiers` held:
/// nothing for a bare modifier or Escape, a deletion request for Backspace
/// and Delete, else the modifiers and the key joined by `+` (nothing when the
/// key has no name).
pub open spec fn key_sequence(key: i32, modifiers: i32, text: Seq<char>, macos: bool) -> Seq<char> {
    if key == KEY_SHIFT || key == KEY_CONTROL || key == KEY_META || key == KEY_ALT || key == KEY_ESCAPE {
        seq![]
    } else if key == KEY_BACKSPACE || key == KEY_DELETE {
        "DELETE_Request"@
    } else if key_name(key, text).len() == 0 {
        seq![]
    } else {
        joined(modifier_names(modifiers, macos).push(key_name(key, text)), "+"@)
    }
}

fn function_key(n: i32) -> (r: String)
    requires
        1 <= n <= 12,
    ensures
        r@ == function_key_name(n as int),
{
    let s = if n == 1 { "F1" }
        else if n == 2 { "F2" }
        else if n == 3 { "F3" }
        else if n == 4 { "F4" }
        else if n == 5 { "F5" }
        else if n == 6 { "F6" }
        else if n == 7 { "F7" }
        else if n == 8 { "F8" }
        else if n == 9 { "F9" }
        else if n == 10 { "F10" }
        else if n == 11 { "F11" }
        else { "F12" };
    s.to_owned()
}

/// The shortcut editor's key handling.
pub struct ShortcutHelperRust;

impl ShortcutHelperRust {
    /// The key sequence text for a press of `key` with `modifiers`, whose
    /// typed text is `text`; `macos` names the Meta key Cmd.
    pub fn get_key_sequence(&self, key: i32, modifiers: i32, text: &str, macos: bool) -> (r: String)
        ensures
            r@ == key_sequence(key, modifiers, text@, macos),
    {
        if key == KEY_SHIFT || key == KEY_CONTROL || key == KEY_META || key == KEY_ALT || key == KEY_ESCAPE {
            return String::new();
        }
        if key == KEY_BACKSPACE || key == KEY_DELETE {
            return "DELETE_Request".to_owned();
        }
        let name = if KEY_F1 <= key && key <= KEY_F12 {
            function_key(key - KEY_F1 + 1)
        } else if key == KEY_SPACE {
            "Space".to_owned()
        } else {
            uppercase(text)
        };
        if name.as_str().is_empty() {
            return String::new();
        }
        let ghost mods = modifier_names(modifiers, macos);
        let mut parts: Vec<String> = Vec::new();
        if modifiers & CONTROL_MODIFIER != 0 {
            parts.push("Ctrl".to_owned());
        }
        if modifiers & ALT_MODIFIER != 0 {
            parts.push("Alt".to_owned());
        }
        if modifiers & SHIFT_MODIFIER != 0 {
            parts.push("Shift".to_owned());
        }
        if modifiers & META_MODIFIER != 0 {
            if macos {
                parts.push("Cmd".to_owned());
            } else {
                parts.push("Meta".to_owned());
            }
        }
        assert(texts(parts@) =~= mods);
        parts.push(name);
        assert(texts(parts@) =~= mods.push(key_name(key, text@)));
        join_with_plus(&parts)
    }
}

} // verus!
