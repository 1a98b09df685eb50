//! Properties of key names that hold whatever the tables and helpers of
//! `keys` look like inside: which keys count as arrows and the like, how a
//! letter key reads in a shortcut, which flag a modifier key moves, and
//! which names the macOS letter and digit key codes get.
use vstd::prelude::*;

use crate::keys::{Modifiers, is_modifier_name, key_category, mac_key_label, modifier_flag, modifiers_after, visible_name};
use crate::text::{has_infix, occurs_at};

verus! {

/// No `a` in `s` is followed directly by `b`.
pub open spec fn pair_free(s: Seq<char>, a: char, b: char) -> bool
    decreases s.len(),
{
    s.len() < 2 || (!(s[0] == a && s[1] == b) && pair_free(s.drop_first(), a, b))
}

proof fn lemma_pair_free_at(s: Seq<char>, a: char, b: char, i: int)
    requires
        pair_free(s, a, b),
        0 <= i < s.len() - 1,
    ensures
        !(s[i] == a && s[i + 1] == b),
    decreases s.len(),
{
    if i > 0 {
        lemma_pair_free_at(s.drop_first(), a, b, i - 1);
    }
}

/// A text in which the first two characters of `p` never follow each other
/// does not contain `p`.
proof fn lemma_pair_free_not_infix(s: Seq<char>, p: Seq<char>)
    requires
        p.len() >= 2,
        pair_free(s, p[0], p[1]),
    ensures
        !has_infix(s, p),
{
    assert forall|i: int| !occurs_at(s, p, i) by {
        if occurs_at(s, p, i) {
            assert(s.subrange(i, i + p.len())[0] == p[0]);
            assert(s.subrange(i, i + p.len())[1] == p[1]);
            lemma_pair_free_at(s, p[0], p[1], i);
        }
    }
}

/// A text whose first character differs from that of `p` does not start with `p`.
proof fn lemma_not_prefix(s: Seq<char>, p: Seq<char>)
    requires
        p.len() > 0,
        s.len() > 0,
        s[0] != p[0],
    ensures
        !crate::text::has_prefix(s, p),
{
    if crate::text::has_prefix(s, p) {
        assert(s.subrange(0, p.len() as int)[0] == p[0]);
    }
}

/// A name that is no modifier and starts neither with "Key" nor with "Num".
proof fn lemma_plain_other(s: Seq<char>)
    requires
        s.len() > 0,
        s[0] != 'K',
        s[0] != 'N',
        pair_free(s, 'M', 'e'),
        pair_free(s, 'C', 'o'),
        pair_free(s, 'A', 'l'),
        pair_free(s, 'S', 'h'),
    ensures
        !is_modifier_name(s),
        !crate::text::has_prefix(s, "Key"@),
        !crate::text::has_prefix(s, "Num"@),
{
    reveal_strlit("Key");
    reveal_strlit("Num");
    lemma_plain_name(s);
    lemma_not_prefix(s, "Key"@);
    lemma_not_prefix(s, "Num"@);
}

/// The name mentions none of Meta, Control, Alt and Shift.
proof fn lemma_plain_name(s: Seq<char>)
    requires
        pair_free(s, 'M', 'e'),
        pair_free(s, 'C', 'o'),
        pair_free(s, 'A', 'l'),
        pair_free(s, 'S', 'h'),
    ensures
        !is_modifier_name(s),
{
    reveal_strlit("Meta");
    reveal_strlit("Control");
    reveal_strlit("Alt");
    reveal_strlit("Shift");
    lemma_pair_free_not_infix(s, "Meta"@);
    lemma_pair_free_not_infix(s, "Control"@);
    lemma_pair_free_not_infix(s, "Alt"@);
    lemma_pair_free_not_infix(s, "Shift"@);
}

/// The four arrow keys count as "arrow"; Return, Backspace, Tab and Escape
/// each count under a category of their own.
pub proof fn lemma_named_key_categories()
    ensures
        key_category("LeftArrow"@) == "arrow"@,
        key_category("RightArrow"@) == "arrow"@,
        key_category("UpArrow"@) == "arrow"@,
        key_category("DownArrow"@) == "arrow"@,
        key_category("Return"@) == "enter"@,
        key_category("Backspace"@) == "backspace"@,
        key_category("Tab"@) == "tab"@,
        key_category("Escape"@) == "escape"@,
{
    reveal_strlit("Key");
    reveal_strlit("Num");
    reveal_strlit("LeftArrow");
    reveal_strlit("RightArrow");
    reveal_strlit("UpArrow");
    reveal_strlit("DownArrow");
    reveal_strlit("Return");
    reveal_strlit("Backspace");
    reveal_strlit("Tab");
    reveal_strlit("Escape");
    reveal_with_fuel(pair_free, 11);
    assert("LeftArrow"@[0] != "Return"@[0] && "LeftArrow"@[0] != "Backspace"@[0] && "LeftArrow"@[0] != "Tab"@[0] && "LeftArrow"@[0] != "Escape"@[0]);
    assert("RightArrow"@[0] != "Return"@[0] || "RightArrow"@.len() != "Return"@.len());
    assert("UpArrow"@[0] != "Return"@[0] && "UpArrow"@[0] != "Backspace"@[0] && "UpArrow"@[0] != "Tab"@[0] && "UpArrow"@[0] != "Escape"@[0] && "UpArrow"@[0] != "LeftArrow"@[0] && "UpArrow"@[0] != "RightArrow"@[0]);
    assert("DownArrow"@[0] != "Return"@[0] && "DownArrow"@[0] != "Backspace"@[0] && "DownArrow"@[0] != "Tab"@[0] && "DownArrow"@[0] != "Escape"@[0] && "DownArrow"@[0] != "LeftArrow"@[0] && "DownArrow"@[0] != "RightArrow"@[0] && "DownArrow"@[0] != "UpArrow"@[0]);
    assert("RightArrow"@[0] != "Backspace"@[0] && "RightArrow"@[0] != "Tab"@[0] && "RightArrow"@[0] != "Escape"@[0] && "RightArrow"@[0] != "LeftArrow"@[0]);
    lemma_plain_other("LeftArrow"@);
    lemma_plain_other("RightArrow"@);
    lemma_plain_other("UpArrow"@);
    lemma_plain_other("DownArrow"@);
    lemma_plain_other("Return"@);
    lemma_plain_other("Backspace"@);
    lemma_plain_other("Tab"@);
    lemma_plain_other("Escape"@);
}


/// The name of the letter key for `c`: "Key" and the letter.
pub open spec fn letter_key(c: char) -> Seq<char> {
    "Key"@ + seq![c]
}

/// A letter key reads in a shortcut as its letter in upper case, whether
/// its name holds the letter in lower or upper case; with Command held it
/// makes "Cmd+" and that letter.
pub proof fn lemma_letter_key_reads_as_capital(c: char)
    requires
        ('a' <= c && c <= 'z') || ('A' <= c && c <= 'Z'),
    ensures
        visible_name(letter_key(c)) == seq![
            if 'a' <= c && c <= 'z' {
                ((c as u32) - 32) as char
            } else {
                c
            },
        ],
        crate::keys::shortcut_text(
            (Modifiers { cmd: true, ctrl: false, alt: false, shift: false }),
            letter_key(c),
        ) == Some(
            "Cmd+"@ + seq![
                if 'a' <= c && c <= 'z' {
                    ((c as u32) - 32) as char
                } else {
                    c
                },
            ],
        ),
{
    reveal_strlit("Key");
    reveal_strlit("Cmd");
    reveal_strlit("+");
    reveal_strlit("Cmd+");
    let k = letter_key(c);
    assert(k.subrange(0, 3) =~= "Key"@);
    assert(k[3] == c);
    reveal_with_fuel(pair_free, 4);
    assert(k.drop_first().drop_first().drop_first().len() == 1);
    lemma_plain_name(k);
    let m = Modifiers { cmd: true, ctrl: false, alt: false, shift: false };
    let parts = crate::keys::shortcut_parts(m, k);
    assert(parts =~= seq!["Cmd"@, visible_name(k)]);
    assert(parts.drop_last() =~= seq!["Cmd"@]);
    assert(crate::keys::join_plus(parts.drop_last()) == "Cmd"@);
    assert("Cmd"@ + "+"@ =~= "Cmd+"@);
}

/// A key going down or up moves exactly one flag, chosen by the first of
/// "Meta", "Control", "Alt", "Shift" that its name contains (Command,
/// Control, Option, Shift), and leaves the others; a key whose name holds
/// none of them changes nothing. Reading a key's flag reads that same flag.
pub proof fn lemma_modifier_flags(m: Modifiers, k: Seq<char>, down: bool)
    ensures
        has_infix(k, "Meta"@) ==> modifiers_after(m, k, down) == (Modifiers { cmd: down, ctrl: m.ctrl, alt: m.alt, shift: m.shift }) && modifier_flag(m, k) == m.cmd,
        !has_infix(k, "Meta"@) && has_infix(k, "Control"@) ==> modifiers_after(m, k, down)
            == (Modifiers { cmd: m.cmd, ctrl: down, alt: m.alt, shift: m.shift }) && modifier_flag(
            m,
            k,
        ) == m.ctrl,
        !has_infix(k, "Meta"@) && !has_infix(k, "Control"@) && has_infix(k, "Alt"@)
            ==> modifiers_after(m, k, down) == (Modifiers { cmd: m.cmd, ctrl: m.ctrl, alt: down, shift: m.shift }) && modifier_flag(m, k) == m.alt,
        !has_infix(k, "Meta"@) && !has_infix(k, "Control"@) && !has_infix(k, "Alt"@) && has_infix(
            k,
            "Shift"@,
        ) ==> modifiers_after(m, k, down) == (Modifiers { cmd: m.cmd, ctrl: m.ctrl, alt: m.alt, shift: down }) && modifier_flag(m, k) == m.shift,
        !has_infix(k, "Meta"@) && !has_infix(k, "Control"@) && !has_infix(k, "Alt"@) && !has_infix(
            k,
            "Shift"@,
        ) ==> modifiers_after(m, k, down) == m && !modifier_flag(m, k),
{
}

/// The macOS key codes of the letter keys (ANSI A to Z, as core-graphics
/// numbers them) name "Key" and the letter, and the codes of the digit
/// keys, on the main row and on the keypad, name "Num" and the digit.
pub proof fn lemma_mac_letter_and_digit_codes()
    ensures
        mac_key_label(0x00) == letter_key('A'),
        mac_key_label(0x0B) == letter_key('B'),
        mac_key_label(0x08) == letter_key('C'),
        mac_key_label(0x02) == letter_key('D'),
        mac_key_label(0x0E) == letter_key('E'),
        mac_key_label(0x03) == letter_key('F'),
        mac_key_label(0x05) == letter_key('G'),
        mac_key_label(0x04) == letter_key('H'),
        mac_key_label(0x22) == letter_key('I'),
        mac_key_label(0x26) == letter_key('J'),
        mac_key_label(0x28) == letter_key('K'),
        mac_key_label(0x25) == letter_key('L'),
        mac_key_label(0x2E) == letter_key('M'),
        mac_key_label(0x2D) == letter_key('N'),
        mac_key_label(0x1F) == letter_key('O'),
        mac_key_label(0x23) == letter_key('P'),
        mac_key_label(0x0C) == letter_key('Q'),
        mac_key_label(0x0F) == letter_key('R'),
        mac_key_label(0x01) == letter_key('S'),
        mac_key_label(0x11) == letter_key('T'),
        mac_key_label(0x20) == letter_key('U'),
        mac_key_label(0x09) == letter_key('V'),
        mac_key_label(0x0D) == letter_key('W'),
        mac_key_label(0x07) == letter_key('X'),
        mac_key_label(0x10) == letter_key('Y'),
        mac_key_label(0x06) == letter_key('Z'),
        mac_key_label(0x1D) == "Num"@ + seq!['0'] && mac_key_label(0x52) == "Num"@ + seq!['0'],
        mac_key_label(0x12) == "Num"@ + seq!['1'] && mac_key_label(0x53) == "Num"@ + seq!['1'],
        mac_key_label(0x13) == "Num"@ + seq!['2'] && mac_key_label(0x54) == "Num"@ + seq!['2'],
        mac_key_label(0x14) == "Num"@ + seq!['3'] && mac_key_label(0x55) == "Num"@ + seq!['3'],
        mac_key_label(0x15) == "Num"@ + seq!['4'] && mac_key_label(0x56) == "Num"@ + seq!['4'],
        mac_key_label(0x17) == "Num"@ + seq!['5'] && mac_key_label(0x57) == "Num"@ + seq!['5'],
        mac_key_label(0x16) == "Num"@ + seq!['6'] && mac_key_label(0x58) == "Num"@ + seq!['6'],
        mac_key_label(0x1A) == "Num"@ + seq!['7'] && mac_key_label(0x59) == "Num"@ + seq!['7'],
        mac_key_label(0x1C) == "Num"@ + seq!['8'] && mac_key_label(0x5B) == "Num"@ + seq!['8'],
        mac_key_label(0x19) == "Num"@ + seq!['9'] && mac_key_label(0x5C) == "Num"@ + seq!['9'],
{
    reveal_strlit("Key");
    reveal_strlit("Num");
    reveal_strlit("KeyA"); reveal_strlit("KeyB"); reveal_strlit("KeyC"); reveal_strlit("KeyD");
    reveal_strlit("KeyE"); reveal_strlit("KeyF"); reveal_strlit("KeyG"); reveal_strlit("KeyH");
    reveal_strlit("KeyI"); reveal_strlit("KeyJ"); reveal_strlit("KeyK"); reveal_strlit("KeyL");
    reveal_strlit("KeyM"); reveal_strlit("KeyN"); reveal_strlit("KeyO"); reveal_strlit("KeyP");
    reveal_strlit("KeyQ"); reveal_strlit("KeyR"); reveal_strlit("KeyS"); reveal_strlit("KeyT");
    reveal_strlit("KeyU"); reveal_strlit("KeyV"); reveal_strlit("KeyW"); reveal_strlit("KeyX");
    reveal_strlit("KeyY"); reveal_strlit("KeyZ");
    reveal_strlit("Num0"); reveal_strlit("Num1"); reveal_strlit("Num2"); reveal_strlit("Num3");
    reveal_strlit("Num4"); reveal_strlit("Num5"); reveal_strlit("Num6"); reveal_strlit("Num7");
    reveal_strlit("Num8"); reveal_strlit("Num9");
}

} // verus!
