//! What a key name means: whether it is a modifier, which category it
//! counts under, how it reads in a shortcut label, and the names that
//! macOS virtual key codes get.
use vstd::prelude::*;
use vstd::string::*;

use crate::text::{has_infix, has_prefix, text_contains, text_eq, text_starts_with};

verus! {

/// The key name mentions "Meta" (a Command key).
pub open spec fn names_meta(k: Seq<char>) -> bool {
    has_infix(k, "Meta"@)
}

/// The key name mentions "Control".
pub open spec fn names_control(k: Seq<char>) -> bool {
    has_infix(k, "Control"@)
}

/// The key name mentions "Alt" (an Option key).
pub open spec fn names_alt(k: Seq<char>) -> bool {
    has_infix(k, "Alt"@)
}

/// The key name mentions "Shift".
pub open spec fn names_shift(k: Seq<char>) -> bool {
    has_infix(k, "Shift"@)
}

/// A key is a modifier when its name mentions Meta, Control, Alt or Shift.
pub open spec fn is_modifier_name(k: Seq<char>) -> bool {
    names_meta(k) || names_control(k) || names_alt(k) || names_shift(k)
}

/// Which modifier keys are held down.
#[derive(PartialEq, Eq, Structural, Clone, Copy, Debug)]
pub struct Modifiers {
    pub cmd: bool,
    pub ctrl: bool,
    pub alt: bool,
    pub shift: bool,
}

impl Modifiers {
    /// No modifier held.
    pub open spec fn none() -> Modifiers {
        Modifiers { cmd: false, ctrl: false, alt: false, shift: false }
    }

    /// Command, Control or Option is held: the keys that make a shortcut.
    pub open spec fn makes_shortcut(self) -> bool {
        self.cmd || self.ctrl || self.alt
    }
}

impl Default for Modifiers {
    fn default() -> (m: Modifiers)
        ensures
            m == Modifiers::none(),
    {
        Modifiers { cmd: false, ctrl: false, alt: false, shift: false }
    }
}

/// The modifier state after `k` goes down (`down`) or up; the first of
/// Meta, Control, Alt, Shift that the name mentions decides the flag.
pub open spec fn modifiers_after(m: Modifiers, k: Seq<char>, down: bool) -> Modifiers {
    if names_meta(k) {
        Modifiers { cmd: down, ..m }
    } else if names_control(k) {
        Modifiers { ctrl: down, ..m }
    } else if names_alt(k) {
        Modifiers { alt: down, ..m }
    } else if names_shift(k) {
        Modifiers { shift: down, ..m }
    } else {
        m
    }
}

/// Whether the flag that `k` stands for is set.
pub open spec fn modifier_flag(m: Modifiers, k: Seq<char>) -> bool {
    if names_meta(k) {
        m.cmd
    } else if names_control(k) {
        m.ctrl
    } else if names_alt(k) {
        m.alt
    } else if names_shift(k) {
        m.shift
    } else {
        false
    }
}

pub fn is_modifier(key: &str) -> (r: bool)
    ensures
        r == is_modifier_name(key@),
{
    text_contains(key, "Meta") || text_contains(key, "Control") || text_contains(key, "Alt")
        || text_contains(key, "Shift")
}

pub fn update_modifier(modifiers: &mut Modifiers, key: &str, down: bool)
    ensures
        *final(modifiers) == modifiers_after(*old(modifiers), key@, down),
{
    if text_contains(key, "Meta") {
        modifiers.cmd = down;
    } else if text_contains(key, "Control") {
        modifiers.ctrl = down;
    } else if text_contains(key, "Alt") {
        modifiers.alt = down;
    } else if text_contains(key, "Shift") {
        modifiers.shift = down;
    }
}

pub fn modifier_is_active(modifiers: &Modifiers, key: &str) -> (r: bool)
    ensures
        r == modifier_flag(*modifiers, key@),
{
    if text_contains(key, "Meta") {
        modifiers.cmd
    } else if text_contains(key, "Control") {
        modifiers.ctrl
    } else if text_contains(key, "Alt") {
        modifiers.alt
    } else if text_contains(key, "Shift") {
        modifiers.shift
    } else {
        false
    }
}

pub open spec fn is_ascii_letter(c: char) -> bool {
    ('a' <= c && c <= 'z') || ('A' <= c && c <= 'Z')
}

pub open spec fn is_ascii_digit(c: char) -> bool {
    '0' <= c && c <= '9'
}

/// The upper-case form of an ASCII letter; other characters stay.
pub open spec fn ascii_upper(c: char) -> char {
    if 'a' <= c && c <= 'z' {
        ((c as u32) - 32) as char
    } else {
        c
    }
}

/// How a key reads in a shortcut label: "KeyX" as the letter in upper
/// case, "NumD" as the digit, a few keys by short names, others as named.
pub open spec fn visible_name(k: Seq<char>) -> Seq<char> {
    if has_prefix(k, "Key"@) && k.len() == 4 && is_ascii_letter(k[3]) {
        seq![ascii_upper(k[3])]
    } else if has_prefix(k, "Num"@) && k.len() == 4 && is_ascii_digit(k[3]) {
        seq![k[3]]
    } else if k == "Return"@ {
        "Enter"@
    } else if k == "Escape"@ {
        "Esc"@
    } else if k == "LeftArrow"@ {
        "Left"@
    } else if k == "RightArrow"@ {
        "Right"@
    } else if k == "UpArrow"@ {
        "Up"@
    } else if k == "DownArrow"@ {
        "Down"@
    } else {
        k
    }
}

/// Upper case of an ASCII letter, as a one-character string.
fn upper_letter(c: char) -> (s: String)
    requires
        is_ascii_letter(c),
    ensures
        s@ == seq![ascii_upper(c)],
{
    let alphabet = "ABCDEFGHIJKLMNOPQRSTUVWXYZ";
    proof {
        reveal_strlit("ABCDEFGHIJKLMNOPQRSTUVWXYZ");
    }
    let idx: usize = if 'a' <= c && c <= 'z' {
        ((c as u32) - ('a' as u32)) as usize
    } else {
        ((c as u32) - ('A' as u32)) as usize
    };
    let one = alphabet.substring_char(idx, idx + 1);
    assert(one@ =~= seq![ascii_upper(c)]);
    one.to_string()
}

pub fn visible_key_name(key: &str) -> (r: String)
    ensures
        r@ == visible_name(key@),
{
    let n = key.unicode_len();
    if text_starts_with(key, "Key") && n == 4 {
        proof {
            reveal_strlit("Key");
        }
        let c = key.get_char(3);
        if ('a' <= c && c <= 'z') || ('A' <= c && c <= 'Z') {
            return upper_letter(c);
        }
    }
    if text_starts_with(key, "Num") && n == 4 {
        let c = key.get_char(3);
        if '0' <= c && c <= '9' {
            let digit = key.substring_char(3, 4);
            assert(digit@ =~= seq![key@[3]]);
            return digit.to_string();
        }
    }
    if text_eq(key, "Return") {
        "Enter".to_string()
    } else if text_eq(key, "Escape") {
        "Esc".to_string()
    } else if text_eq(key, "LeftArrow") {
        "Left".to_string()
    } else if text_eq(key, "RightArrow") {
        "Right".to_string()
    } else if text_eq(key, "UpArrow") {
        "Up".to_string()
    } else if text_eq(key, "DownArrow") {
        "Down".to_string()
    } else {
        key.to_string()
    }
}

/// Joins the parts with "+" between them.
pub open spec fn join_plus(parts: Seq<Seq<char>>) -> Seq<char>
    decreases parts.len(),
{
    if parts.len() == 0 {
        Seq::empty()
    } else if parts.len() == 1 {
        parts[0]
    } else {
        join_plus(parts.drop_last()) + "+"@ + parts.last()
    }
}

/// The parts of a shortcut label: the held modifiers in the order
/// Cmd, Ctrl, Alt, Shift, then the key's visible name.
pub open spec fn shortcut_parts(m: Modifiers, k: Seq<char>) -> Seq<Seq<char>> {
    (if m.cmd { seq!["Cmd"@] } else { Seq::empty() }) + (if m.ctrl { seq!["Ctrl"@] } else {
        Seq::empty()
    }) + (if m.alt { seq!["Alt"@] } else { Seq::empty() }) + (if m.shift { seq!["Shift"@] } else {
        Seq::empty()
    }) + seq![visible_name(k)]
}

/// The shortcut that pressing `k` with `m` held makes: none for a modifier
/// key or when none of Command, Control, Option is held.
pub open spec fn shortcut_text(m: Modifiers, k: Seq<char>) -> Option<Seq<char>> {
    if is_modifier_name(k) || !m.makes_shortcut() {
        None
    } else {
        Some(join_plus(shortcut_parts(m, k)))
    }
}

/// Joins the parts with "+" between them.
fn join_with_plus(parts: &Vec<String>) -> (r: String)
    ensures
        r@ == join_plus(parts@.map_values(|s: String| s@)),
{
    let ghost views = parts@.map_values(|s: String| s@);
    let mut r = String::new();
    let n = parts.len();
    let mut i: usize = 0;
    assert(views.take(0) =~= Seq::<Seq<char>>::empty());
    while i < n
        invariant
            n == parts@.len(),
            views == parts@.map_values(|s: String| s@),
            i <= n,
            r@ == join_plus(views.take(i as int)),
        decreases n - i,
    {
        if i != 0 {
            r.append("+");
        }
        r.append(parts[i].as_str());
        assert(views.take(i + 1).drop_last() =~= views.take(i as int));
        i = i + 1;
    }
    assert(views.take(n as int) =~= views);
    r
}

pub fn shortcut_label(modifiers: &Modifiers, key: &str) -> (r: Option<String>)
    ensures
        match r {
            Some(s) => shortcut_text(*modifiers, key@) == Some(s@),
            None => shortcut_text(*modifiers, key@) is None,
        },
{
    if is_modifier(key) {
        return None;
    }
    if !(modifiers.cmd || modifiers.ctrl || modifiers.alt) {
        return None;
    }
    let mut parts: Vec<String> = Vec::new();
    if modifiers.cmd {
        parts.push("Cmd".to_string());
    }
    if modifiers.ctrl {
        parts.push("Ctrl".to_string());
    }
    if modifiers.alt {
        parts.push("Alt".to_string());
    }
    if modifiers.shift {
        parts.push("Shift".to_string());
    }
    parts.push(visible_key_name(key));
    assert(parts@.map_values(|s: String| s@) =~= shortcut_parts(*modifiers, key@));
    Some(join_with_plus(&parts))
}

/// The name is "F" followed by nothing but ASCII digits.
pub open spec fn is_function_name(k: Seq<char>) -> bool {
    k.len() >= 1 && k[0] == 'F' && forall|i: int| 1 <= i < k.len() ==> is_ascii_digit(#[trigger] k[i])
}

/// The category that a key press counts under.
pub open spec fn key_category(k: Seq<char>) -> Seq<char> {
    if is_modifier_name(k) {
        "modifier"@
    } else if has_prefix(k, "Key"@) {
        "letter"@
    } else if has_prefix(k, "Num"@) {
        "number"@
    } else if k == "Return"@ {
        "enter"@
    } else if k == "Backspace"@ {
        "backspace"@
    } else if k == "Tab"@ {
        "tab"@
    } else if k == "Escape"@ {
        "escape"@
    } else if k == "LeftArrow"@ || k == "RightArrow"@ || k == "UpArrow"@ || k == "DownArrow"@ {
        "arrow"@
    } else if is_function_name(k) {
        "function"@
    } else {
        "other"@
    }
}

fn is_function_key(key: &str) -> (r: bool)
    ensures
        r == is_function_name(key@),
{
    let n = key.unicode_len();
    if n == 0 || key.get_char(0) != 'F' {
        return false;
    }
    let mut i: usize = 1;
    while i < n
        invariant
            n == key@.len(),
            1 <= i <= n,
            forall|j: int| 1 <= j < i ==> is_ascii_digit(#[trigger] key@[j]),
        decreases n - i,
    {
        let c = key.get_char(i);
        if !('0' <= c && c <= '9') {
            return false;
        }
        i = i + 1;
    }
    true
}

pub fn category_for_key(key: &str) -> (r: &'static str)
    ensures
        r@ == key_category(key@),
{
    if is_modifier(key) {
        return "modifier";
    }
    if text_starts_with(key, "Key") {
        return "letter";
    }
    if text_starts_with(key, "Num") {
        return "number";
    }
    if text_eq(key, "Return") {
        "enter"
    } else if text_eq(key, "Backspace") {
        "backspace"
    } else if text_eq(key, "Tab") {
        "tab"
    } else if text_eq(key, "Escape") {
        "escape"
    } else if text_eq(key, "LeftArrow") || text_eq(key, "RightArrow") || text_eq(key, "UpArrow")
        || text_eq(key, "DownArrow") {
        "arrow"
    } else if is_function_key(key) {
        "function"
    } else {
        "other"
    }
}

/// Bits of the Command, Control, Option and Shift flags in a macOS event's flag word.
pub const FLAG_COMMAND: u64 = 0x0010_0000;

pub const FLAG_CONTROL: u64 = 0x0004_0000;

pub const FLAG_ALTERNATE: u64 = 0x0008_0000;

pub const FLAG_SHIFT: u64 = 0x0002_0000;

/// The flag word holds every bit of `mask`.
pub open spec fn flags_hold(flags: u64, mask: u64) -> bool {
    flags & mask == mask
}

/// Whether a macOS flags-changed event leaves the modifier `k` down.
pub open spec fn modifier_down_in(flags: u64, k: Seq<char>) -> bool {
    if names_meta(k) {
        flags_hold(flags, FLAG_COMMAND)
    } else if names_control(k) {
        flags_hold(flags, FLAG_CONTROL)
    } else if names_alt(k) {
        flags_hold(flags, FLAG_ALTERNATE)
    } else if names_shift(k) {
        flags_hold(flags, FLAG_SHIFT)
    } else {
        false
    }
}

pub fn mac_modifier_is_down(flags: u64, key: &str) -> (r: bool)
    ensures
        r == modifier_down_in(flags, key@),
{
    if text_contains(key, "Meta") {
        flags & FLAG_COMMAND == FLAG_COMMAND
    } else if text_contains(key, "Control") {
        flags & FLAG_CONTROL == FLAG_CONTROL
    } else if text_contains(key, "Alt") {
        flags & FLAG_ALTERNATE == FLAG_ALTERNATE
    } else if text_contains(key, "Shift") {
        flags & FLAG_SHIFT == FLAG_SHIFT
    } else {
        false
    }
}

/// The key name that a macOS virtual key code stands for, "Other" where
/// the code is none of the keys the statistics tell apart.
pub open spec fn mac_key_label(code: u16) -> Seq<char> {
    match code {
        0x00 => "KeyA"@,
        0x0B => "KeyB"@,
        0x08 => "KeyC"@,
        0x02 => "KeyD"@,
        0x0E => "KeyE"@,
        0x03 => "KeyF"@,
        0x05 => "KeyG"@,
        0x04 => "KeyH"@,
        0x22 => "KeyI"@,
        0x26 => "KeyJ"@,
        0x28 => "KeyK"@,
        0x25 => "KeyL"@,
        0x2E => "KeyM"@,
        0x2D => "KeyN"@,
        0x1F => "KeyO"@,
        0x23 => "KeyP"@,
        0x0C => "KeyQ"@,
        0x0F => "KeyR"@,
        0x01 => "KeyS"@,
        0x11 => "KeyT"@,
        0x20 => "KeyU"@,
        0x09 => "KeyV"@,
        0x0D => "KeyW"@,
        0x07 => "KeyX"@,
        0x10 => "KeyY"@,
        0x06 => "KeyZ"@,
        0x1D | 0x52 => "Num0"@,
        0x12 | 0x53 => "Num1"@,
        0x13 | 0x54 => "Num2"@,
        0x14 | 0x55 => "Num3"@,
        0x15 | 0x56 => "Num4"@,
        0x17 | 0x57 => "Num5"@,
        0x16 | 0x58 => "Num6"@,
        0x1A | 0x59 => "Num7"@,
        0x1C | 0x5B => "Num8"@,
        0x19 | 0x5C => "Num9"@,
        0x24 | 0x4C => "Return"@,
        0x33 | 0x75 => "Backspace"@,
        0x30 => "Tab"@,
        0x35 => "Escape"@,
        0x31 => "Space"@,
        0x7B => "LeftArrow"@,
        0x7C => "RightArrow"@,
        0x7E => "UpArrow"@,
        0x7D => "DownArrow"@,
        0x7A => "F1"@,
        0x78 => "F2"@,
        0x63 => "F3"@,
        0x76 => "F4"@,
        0x60 => "F5"@,
        0x61 => "F6"@,
        0x62 => "F7"@,
        0x64 => "F8"@,
        0x65 => "F9"@,
        0x6D => "F10"@,
        0x67 => "F11"@,
        0x6F => "F12"@,
        0x69 => "F13"@,
        0x6B => "F14"@,
        0x71 => "F15"@,
        0x6A => "F16"@,
        0x40 => "F17"@,
        0x4F => "F18"@,
        0x50 => "F19"@,
        0x5A => "F20"@,
        0x37 => "MetaLeft"@,
        0x36 => "MetaRight"@,
        0x3B => "ControlLeft"@,
        0x3E => "ControlRight"@,
        0x3A => "AltLeft"@,
        0x3D => "AltRight"@,
        0x38 => "ShiftLeft"@,
        0x3C => "ShiftRight"@,
        _ => "Other"@,
    }
}

pub fn mac_key_name(keycode: u16) -> (r: &'static str)
    ensures
        r@ == mac_key_label(keycode),
{
    match keycode {
        0x00 => "KeyA",
        0x0B => "KeyB",
        0x08 => "KeyC",
        0x02 => "KeyD",
        0x0E => "KeyE",
        0x03 => "KeyF",
        0x05 => "KeyG",
        0x04 => "KeyH",
        0x22 => "KeyI",
        0x26 => "KeyJ",
        0x28 => "KeyK",
        0x25 => "KeyL",
        0x2E => "KeyM",
        0x2D => "KeyN",
        0x1F => "KeyO",
        0x23 => "KeyP",
        0x0C => "KeyQ",
        0x0F => "KeyR",
        0x01 => "KeyS",
        0x11 => "KeyT",
        0x20 => "KeyU",
        0x09 => "KeyV",
        0x0D => "KeyW",
        0x07 => "KeyX",
        0x10 => "KeyY",
        0x06 => "KeyZ",
        0x1D | 0x52 => "Num0",
        0x12 | 0x53 => "Num1",
        0x13 | 0x54 => "Num2",
        0x14 | 0x55 => "Num3",
        0x15 | 0x56 => "Num4",
        0x17 | 0x57 => "Num5",
        0x16 | 0x58 => "Num6",
        0x1A | 0x59 => "Num7",
        0x1C | 0x5B => "Num8",
        0x19 | 0x5C => "Num9",
        0x24 | 0x4C => "Return",
        0x33 | 0x75 => "Backspace",
        0x30 => "Tab",
        0x35 => "Escape",
        0x31 => "Space",
        0x7B => "LeftArrow",
        0x7C => "RightArrow",
        0x7E => "UpArrow",
        0x7D => "DownArrow",
        0x7A => "F1",
        0x78 => "F2",
        0x63 => "F3",
        0x76 => "F4",
        0x60 => "F5",
        0x61 => "F6",
        0x62 => "F7",
        0x64 => "F8",
        0x65 => "F9",
        0x6D => "F10",
        0x67 => "F11",
        0x6F => "F12",
        0x69 => "F13",
        0x6B => "F14",
        0x71 => "F15",
        0x6A => "F16",
        0x40 => "F17",
        0x4F => "F18",
        0x50 => "F19",
        0x5A => "F20",
        0x37 => "MetaLeft",
        0x36 => "MetaRight",
        0x3B => "ControlLeft",
        0x3E => "ControlRight",
        0x3A => "AltLeft",
        0x3D => "AltRight",
        0x38 => "ShiftLeft",
        0x3C => "ShiftRight",
        _ => "Other",
    }
}

} // verus!
