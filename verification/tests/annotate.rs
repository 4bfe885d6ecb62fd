use garshot::annotate::{
    key_shortcut, translate_button, translate_keycode, translate_modifiers, ColorPickerTab, Key, Modifiers,
    MouseButton, ShortcutAction,
};

#[test]
fn keycodes() {
    assert_eq!(translate_keycode(9), Key::Escape);
    assert_eq!(translate_keycode(104), Key::Return);
    assert_eq!(translate_keycode(38), Key::Char('a'));
    assert_eq!(translate_keycode(52), Key::Char('z'));
    assert_eq!(translate_keycode(10), Key::Char('1'));
    assert_eq!(translate_keycode(18), Key::Char('9'));
    assert_eq!(translate_keycode(19), Key::Char('0'));
    assert_eq!(translate_keycode(200), Key::Unknown(200));
}

#[test]
fn modifier_masks() {
    let m = translate_modifiers(1 | 4 | 64);
    assert!(m.shift && m.ctrl && m.super_key);
    assert!(!m.alt && !m.caps_lock && !m.num_lock);
    let n = translate_modifiers(2 | 8 | 16);
    assert!(n.caps_lock && n.alt && n.num_lock && !n.shift);
    assert_eq!(translate_button(2), Some(MouseButton::Middle));
    assert_eq!(translate_button(4), None);
}

fn mods(ctrl: bool, shift: bool) -> Modifiers {
    Modifiers { shift, ctrl, alt: false, super_key: false, caps_lock: false, num_lock: false }
}

#[test]
fn shortcuts() {
    assert_eq!(key_shortcut(Key::Return, mods(true, false), true, false, false), ShortcutAction::Save);
    assert_eq!(key_shortcut(Key::Escape, mods(false, false), true, false, false), ShortcutAction::Cancel);
    assert_eq!(key_shortcut(Key::Escape, mods(false, false), true, true, false), ShortcutAction::PassToTool);
    assert_eq!(key_shortcut(Key::Char('z'), mods(true, false), true, true, false), ShortcutAction::Undo);
    assert_eq!(key_shortcut(Key::Char('z'), mods(true, true), true, false, false), ShortcutAction::Redo);
    assert_eq!(key_shortcut(Key::Char('y'), mods(true, false), true, false, false), ShortcutAction::Redo);
    assert_eq!(key_shortcut(Key::Char('3'), mods(false, false), true, false, false), ShortcutAction::ColorPreset(2));
    assert_eq!(key_shortcut(Key::Char('0'), mods(false, false), true, false, false), ShortcutAction::PassToTool);
    assert_eq!(key_shortcut(Key::Char('r'), mods(false, false), true, false, true), ShortcutAction::SelectTool('r'));
    assert_eq!(key_shortcut(Key::Char('='), mods(false, false), true, false, false), ShortcutAction::IncreaseLineWidth);
    assert_eq!(key_shortcut(Key::Char('-'), mods(false, false), true, false, false), ShortcutAction::DecreaseLineWidth);
    assert_eq!(key_shortcut(Key::Char('a'), mods(false, false), false, false, true), ShortcutAction::PassToTool);
}

#[test]
fn color_picker_tabs() {
    let all = ColorPickerTab::all();
    assert_eq!(all, [ColorPickerTab::Hsv, ColorPickerTab::Rgb, ColorPickerTab::Palette]);
    let labels: Vec<&str> = all.iter().map(|t| t.label()).collect();
    assert_eq!(labels, vec!["HSV", "RGB", "Palette"]);
    assert_eq!(ColorPickerTab::default(), ColorPickerTab::Hsv);
}

#[test]
fn annotation_window_is_centred() {
    use_placement();
}

fn use_placement() {
    let p = garshot::annotate::window_placement(1920, 1080, 800, 600);
    assert_eq!((p.width, p.height, p.x, p.y), (800, 648, 560, 216));
    let q = garshot::annotate::window_placement(100, 100, 301, 600);
    assert_eq!((q.x, q.y), (0, 0));
    let r = garshot::annotate::window_placement(1921, 1081, 800, 600);
    assert_eq!((r.x, r.y), (560, 216));
}
