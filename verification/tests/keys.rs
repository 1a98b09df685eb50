use keypulse::keys::{
    category_for_key, is_modifier, mac_key_name, mac_modifier_is_down, modifier_is_active,
    shortcut_label, update_modifier, visible_key_name, Modifiers, FLAG_COMMAND, FLAG_SHIFT,
};
use keypulse::listener::{listener_event, mac_listener_event, KeyEventKind, ListenerStep, MacEventKind};
use keypulse::text::{compare_text, text_contains, text_starts_with, TextOrder};

fn none() -> Modifiers {
    Modifiers::default()
}

#[test]
fn contains_and_prefix() {
    assert!(text_contains("ControlLeft", "Control"));
    assert!(text_contains("MetaRight", "Meta"));
    assert!(!text_contains("Meta", "MetaLeft"));
    assert!(text_contains("abc", ""));
    assert!(text_starts_with("KeyA", "Key"));
    assert!(!text_starts_with("Ke", "Key"));
}

#[test]
fn text_order() {
    assert_eq!(compare_text("a", "b"), TextOrder::Less);
    assert_eq!(compare_text("b", "a"), TextOrder::Greater);
    assert_eq!(compare_text("ab", "ab"), TextOrder::Same);
    assert_eq!(compare_text("ab", "abc"), TextOrder::Less);
    assert_eq!(compare_text("2024-01-02", "2024-01-10"), TextOrder::Less);
}

#[test]
fn modifier_names() {
    assert!(is_modifier("MetaLeft"));
    assert!(is_modifier("ControlRight"));
    assert!(is_modifier("AltGr"));
    assert!(is_modifier("ShiftLeft"));
    assert!(!is_modifier("KeyA"));
    assert!(!is_modifier("CapsLock"));
}

#[test]
fn modifier_state_round_trip() {
    let mut m = none();
    update_modifier(&mut m, "MetaLeft", true);
    assert!(m.cmd && !m.ctrl && !m.alt && !m.shift);
    assert!(modifier_is_active(&m, "MetaRight"));
    update_modifier(&mut m, "ShiftRight", true);
    assert!(modifier_is_active(&m, "ShiftLeft"));
    update_modifier(&mut m, "MetaLeft", false);
    assert!(!modifier_is_active(&m, "MetaLeft"));
    assert!(m.shift);
    update_modifier(&mut m, "KeyA", true);
    assert_eq!(m, Modifiers { cmd: false, ctrl: false, alt: false, shift: true });
    assert!(!modifier_is_active(&m, "KeyA"));
}

#[test]
fn visible_names() {
    assert_eq!(visible_key_name("KeyA"), "A");
    assert_eq!(visible_key_name("Keyq"), "Q");
    assert_eq!(visible_key_name("Num7"), "7");
    assert_eq!(visible_key_name("Return"), "Enter");
    assert_eq!(visible_key_name("Escape"), "Esc");
    assert_eq!(visible_key_name("LeftArrow"), "Left");
    assert_eq!(visible_key_name("RightArrow"), "Right");
    assert_eq!(visible_key_name("UpArrow"), "Up");
    assert_eq!(visible_key_name("DownArrow"), "Down");
    assert_eq!(visible_key_name("Backspace"), "Backspace");
    assert_eq!(visible_key_name("Space"), "Space");
    assert_eq!(visible_key_name("KeyAB"), "KeyAB");
    assert_eq!(visible_key_name("Key1"), "Key1");
    assert_eq!(visible_key_name("NumX"), "NumX");
    assert_eq!(visible_key_name("F5"), "F5");
}

#[test]
fn shortcut_labels() {
    let mut m = none();
    assert_eq!(shortcut_label(&m, "KeyC"), None);
    m.shift = true;
    assert_eq!(shortcut_label(&m, "KeyC"), None);
    m.cmd = true;
    assert_eq!(shortcut_label(&m, "KeyC"), Some("Cmd+Shift+C".to_string()));
    assert_eq!(shortcut_label(&m, "ShiftLeft"), None);
    let all = Modifiers { cmd: true, ctrl: true, alt: true, shift: true };
    assert_eq!(shortcut_label(&all, "Num1"), Some("Cmd+Ctrl+Alt+Shift+1".to_string()));
    let ctrl = Modifiers { cmd: false, ctrl: true, alt: false, shift: false };
    assert_eq!(shortcut_label(&ctrl, "KeyV"), Some("Ctrl+V".to_string()));
    let alt = Modifiers { cmd: false, ctrl: false, alt: true, shift: false };
    assert_eq!(shortcut_label(&alt, "Return"), Some("Alt+Enter".to_string()));
}

#[test]
fn categories() {
    assert_eq!(category_for_key("ShiftLeft"), "modifier");
    assert_eq!(category_for_key("KeyA"), "letter");
    assert_eq!(category_for_key("Keyboard"), "letter");
    assert_eq!(category_for_key("Num3"), "number");
    assert_eq!(category_for_key("Return"), "enter");
    assert_eq!(category_for_key("Backspace"), "backspace");
    assert_eq!(category_for_key("Tab"), "tab");
    assert_eq!(category_for_key("Escape"), "escape");
    assert_eq!(category_for_key("LeftArrow"), "arrow");
    assert_eq!(category_for_key("DownArrow"), "arrow");
    assert_eq!(category_for_key("F1"), "function");
    assert_eq!(category_for_key("F12"), "function");
    assert_eq!(category_for_key("F"), "function");
    assert_eq!(category_for_key("Fn"), "other");
    assert_eq!(category_for_key("Space"), "other");
    assert_eq!(category_for_key("Other"), "other");
}

#[test]
fn mac_key_codes() {
    assert_eq!(mac_key_name(0x00), "KeyA");
    assert_eq!(mac_key_name(0x06), "KeyZ");
    assert_eq!(mac_key_name(0x1D), "Num0");
    assert_eq!(mac_key_name(0x52), "Num0");
    assert_eq!(mac_key_name(0x24), "Return");
    assert_eq!(mac_key_name(0x4C), "Return");
    assert_eq!(mac_key_name(0x75), "Backspace");
    assert_eq!(mac_key_name(0x7A), "F1");
    assert_eq!(mac_key_name(0x5A), "F20");
    assert_eq!(mac_key_name(0x37), "MetaLeft");
    assert_eq!(mac_key_name(0x3C), "ShiftRight");
    assert_eq!(mac_key_name(0x39), "Other");
    assert_eq!(mac_key_name(0xFFFF), "Other");
}

#[test]
fn mac_flags() {
    assert!(mac_modifier_is_down(FLAG_COMMAND, "MetaLeft"));
    assert!(!mac_modifier_is_down(FLAG_SHIFT, "MetaLeft"));
    assert!(mac_modifier_is_down(FLAG_SHIFT | 0x100, "ShiftRight"));
    assert!(mac_modifier_is_down(0x0004_0000, "ControlLeft"));
    assert!(mac_modifier_is_down(0x0008_0000, "AltRight"));
    assert!(!mac_modifier_is_down(u64::MAX, "KeyA"));
}

#[test]
fn mac_events() {
    match mac_listener_event(MacEventKind::KeyDown, 0x08, 0, true) {
        ListenerStep::Press(name) => assert_eq!(name, "KeyC"),
        _ => panic!("expected a press"),
    }
    assert!(matches!(mac_listener_event(MacEventKind::KeyDown, 0x08, 0, false), ListenerStep::Ignore));
    match mac_listener_event(MacEventKind::KeyUp, 0x08, 0, false) {
        ListenerStep::Release(name) => assert_eq!(name, "KeyC"),
        _ => panic!("expected a release"),
    }
    match mac_listener_event(MacEventKind::FlagsChanged, 0x37, FLAG_COMMAND, true) {
        ListenerStep::ModifierChange(name, down) => {
            assert_eq!(name, "MetaLeft");
            assert!(down);
        }
        _ => panic!("expected a modifier change"),
    }
    match mac_listener_event(MacEventKind::FlagsChanged, 0x38, 0, true) {
        ListenerStep::ModifierChange(name, down) => {
            assert_eq!(name, "ShiftLeft");
            assert!(!down);
        }
        _ => panic!("expected a modifier change"),
    }
    assert!(matches!(mac_listener_event(MacEventKind::FlagsChanged, 0x39, 0, true), ListenerStep::Ignore));
    assert!(matches!(mac_listener_event(MacEventKind::Other, 0x00, 0, true), ListenerStep::Ignore));
}

#[test]
fn other_listener_events() {
    match listener_event(KeyEventKind::Press, "KeyA".to_string(), true) {
        ListenerStep::Press(k) => assert_eq!(k, "KeyA"),
        _ => panic!("a press while listening is counted"),
    }
    assert!(matches!(
        listener_event(KeyEventKind::Press, "KeyA".to_string(), false),
        ListenerStep::Ignore
    ));
    match listener_event(KeyEventKind::Release, "ShiftLeft".to_string(), false) {
        ListenerStep::Release(k) => assert_eq!(k, "ShiftLeft"),
        _ => panic!("a release is always handled"),
    }
    assert!(matches!(listener_event(KeyEventKind::Other, String::new(), true), ListenerStep::Ignore));
}
