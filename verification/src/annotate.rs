//! The annotation editor's logic: X11 key codes and modifier masks turned
//! into keys, the editor's keyboard shortcuts, where its window is placed,
//! and the colour picker's tabs.

use vstd::prelude::*;

verus! {

/// A key of the annotation overlay.
#[derive(Debug, Clone, Copy, PartialEq, Eq, Structural)]
pub enum Key {
    Escape,
    Return,
    Backspace,
    Space,
    /// A character key.
    Char(char),
    /// A key code with no translation.
    Unknown(u8),
}

/// Modifier keys held during an event.
#[derive(Debug, Clone, Copy, PartialEq, Eq, Structural)]
pub struct Modifiers {
    pub shift: bool,
    pub ctrl: bool,
    pub alt: bool,
    pub super_key: bool,
    pub caps_lock: bool,
    pub num_lock: bool,
}

/// A mouse button.
#[derive(Debug, Clone, Copy, PartialEq, Eq, Structural)]
pub enum MouseButton {
    Left,
    Middle,
    Right,
}

/// The key of an (evdev) X11 key code.
pub open spec fn key_of(keycode: u8) -> Key {
    if keycode == 9 {
        Key::Escape
    } else if keycode == 36 || keycode == 104 {
        Key::Return
    } else if keycode == 22 {
        Key::Backspace
    } else if keycode == 65 {
        Key::Space
    } else {
        match char_of_keycode(keycode) {
            Some(c) => Key::Char(c),
            None => Key::Unknown(keycode),
        }
    }
}

/// The character of a letter, digit, `-` or `=` key code.
pub open spec fn char_of_keycode(keycode: u8) -> Option<char> {
    if keycode == 38 { Some('a') }
    else if keycode == 56 { Some('b') }
    else if keycode == 54 { Some('c') }
    else if keycode == 40 { Some('d') }
    else if keycode == 26 { Some('e') }
    else if keycode == 41 { Some('f') }
    else if keycode == 42 { Some('g') }
    else if keycode == 43 { Some('h') }
    else if keycode == 31 { Some('i') }
    else if keycode == 44 { Some('j') }
    else if keycode == 45 { Some('k') }
    else if keycode == 46 { Some('l') }
    else if keycode == 58 { Some('m') }
    else if keycode == 57 { Some('n') }
    else if keycode == 32 { Some('o') }
    else if keycode == 33 { Some('p') }
    else if keycode == 24 { Some('q') }
    else if keycode == 27 { Some('r') }
    else if keycode == 39 { Some('s') }
    else if keycode == 28 { Some('t') }
    else if keycode == 30 { Some('u') }
    else if keycode == 55 { Some('v') }
    else if keycode == 25 { Some('w') }
    else if keycode == 53 { Some('x') }
    else if keycode == 29 { Some('y') }
    else if keycode == 52 { Some('z') }
    else if 10 <= keycode <= 18 { Some((('1' as u8) + (keycode - 10)) as char) }
    else if keycode == 19 { Some('0') }
    else if keycode == 20 { Some('-') }
    else if keycode == 21 { Some('=') }
    else { None }
}

fn keycode_char(keycode: u8) -> (r: Option<char>)
    ensures
        r == char_of_keycode(keycode),
{
    match keycode {
        38 => Some('a'),
        56 => Some('b'),
        54 => Some('c'),
        40 => Some('d'),
        26 => Some('e'),
        41 => Some('f'),
        42 => Some('g'),
        43 => Some('h'),
        31 => Some('i'),
        44 => Some('j'),
        45 => Some('k'),
        46 => Some('l'),
        58 => Some('m'),
        57 => Some('n'),
        32 => Some('o'),
        33 => Some('p'),
        24 => Some('q'),
        27 => Some('r'),
        39 => Some('s'),
        28 => Some('t'),
        30 => Some('u'),
        55 => Some('v'),
        25 => Some('w'),
        53 => Some('x'),
        29 => Some('y'),
        52 => Some('z'),
        10 => Some('1'),
        11 => Some('2'),
        12 => Some('3'),
        13 => Some('4'),
        14 => Some('5'),
        15 => Some('6'),
        16 => Some('7'),
        17 => Some('8'),
        18 => Some('9'),
        19 => Some('0'),
        20 => Some('-'),
        21 => Some('='),
        _ => None,
    }
}

/// Translate an X11 key code to a key.
pub fn translate_keycode(keycode: u8) -> (k: Key)
    ensures
        k == key_of(keycode),
{
    match keycode {
        9 => Key::Escape,
        36 => Key::Return,
        22 => Key::Backspace,
        65 => Key::Space,
        104 => Key::Return,
        _ => match keycode_char(keycode) {
            Some(c) => Key::Char(c),
            None => Key::Unknown(keycode),
        },
    }
}

/// Bit of Shift in an X11 key/button mask.
pub const MASK_SHIFT: u16 = 1;

/// Bit of Caps Lock.
pub const MASK_LOCK: u16 = 2;

/// Bit of Control.
pub const MASK_CONTROL: u16 = 4;

/// Bit of Mod1 (Alt).
pub const MASK_MOD1: u16 = 8;

/// Bit of Mod2 (Num Lock).
pub const MASK_MOD2: u16 = 16;

/// Bit of Mod4 (Super).
pub const MASK_MOD4: u16 = 64;

/// The modifiers an X11 key/button mask holds.
pub open spec fn modifiers_of(state: u16) -> Modifiers {
    Modifiers {
        shift: state & MASK_SHIFT == MASK_SHIFT,
        ctrl: state & MASK_CONTROL == MASK_CONTROL,
        alt: state & MASK_MOD1 == MASK_MOD1,
        super_key: state & MASK_MOD4 == MASK_MOD4,
        caps_lock: state & MASK_LOCK == MASK_LOCK,
        num_lock: state & MASK_MOD2 == MASK_MOD2,
    }
}

/// Translate an X11 key/button mask to modifiers.
pub fn translate_modifiers(state: u16) -> (m: Modifiers)
    ensures
        m == modifiers_of(state),
{
    Modifiers {
        shift: state & MASK_SHIFT == MASK_SHIFT,
        ctrl: state & MASK_CONTROL == MASK_CONTROL,
        alt: state & MASK_MOD1 == MASK_MOD1,
        super_key: state & MASK_MOD4 == MASK_MOD4,
        caps_lock: state & MASK_LOCK == MASK_LOCK,
        num_lock: state & MASK_MOD2 == MASK_MOD2,
    }
}

/// The mouse button of an X11 button number.
pub fn translate_button(detail: u8) -> (b: Option<MouseButton>)
    ensures
        b == if detail == 1 {
            Some(MouseButton::Left)
        } else if detail == 2 {
            Some(MouseButton::Middle)
        } else if detail == 3 {
            Some(MouseButton::Right)
        } else {
            None
        },
{
    match detail {
        1 => Some(MouseButton::Left),
        2 => Some(MouseButton::Middle),
        3 => Some(MouseButton::Right),
        _ => None,
    }
}

/// What a key press asks of the annotation overlay.
#[derive(Debug, Clone, Copy, PartialEq, Eq, Structural)]
pub enum ShortcutAction {
    /// Ctrl+Return: save the annotated image.
    Save,
    /// Escape: cancel the annotation.
    Cancel,
    /// Ctrl+Z: undo.
    Undo,
    /// Ctrl+Shift+Z or Ctrl+Y: redo.
    Redo,
    /// A digit 1-9: select the colour preset of that index (from 0).
    ColorPreset(usize),
    /// Select the tool of this shortcut character.
    SelectTool(char),
    /// `+` or `=`: wider lines.
    IncreaseLineWidth,
    /// `-`: narrower lines.
    DecreaseLineWidth,
    /// Not a shortcut: hand the event to the current tool.
    PassToTool,
}

/// The shortcut a key press is. `tool_drawing` tells whether the current
/// tool is in the middle of drawing (or editing text), and `is_tool_key`
/// whether the key's character selects a tool.
pub open spec fn shortcut_of(key: Key, modifiers: Modifiers, pressed: bool, tool_drawing: bool, is_tool_key: bool) -> ShortcutAction {
    if !pressed {
        ShortcutAction::PassToTool
    } else if modifiers.ctrl && key == Key::Return {
        ShortcutAction::Save
    } else if key == Key::Escape && !tool_drawing {
        ShortcutAction::Cancel
    } else if modifiers.ctrl && key == Key::Char('z') {
        if modifiers.shift {
            ShortcutAction::Redo
        } else {
            ShortcutAction::Undo
        }
    } else if modifiers.ctrl && key == Key::Char('y') {
        ShortcutAction::Redo
    } else if tool_drawing {
        ShortcutAction::PassToTool
    } else {
        match key {
            Key::Char(c) => if '1' <= c <= '9' {
                ShortcutAction::ColorPreset((c as nat - '1' as nat) as usize)
            } else if is_tool_key {
                ShortcutAction::SelectTool(c)
            } else if c == '+' || c == '=' {
                ShortcutAction::IncreaseLineWidth
            } else if c == '-' {
                ShortcutAction::DecreaseLineWidth
            } else {
                ShortcutAction::PassToTool
            },
            _ => ShortcutAction::PassToTool,
        }
    }
}

/// Decide what a key event asks of the annotation overlay.
pub fn key_shortcut(key: Key, modifiers: Modifiers, pressed: bool, tool_drawing: bool, is_tool_key: bool) -> (a:
    ShortcutAction)
    ensures
        a == shortcut_of(key, modifiers, pressed, tool_drawing, is_tool_key),
{
    if !pressed {
        return ShortcutAction::PassToTool;
    }
    if modifiers.ctrl && key == Key::Return {
        return ShortcutAction::Save;
    }
    if key == Key::Escape && !tool_drawing {
        return ShortcutAction::Cancel;
    }
    if modifiers.ctrl && key == Key::Char('z') {
        return if modifiers.shift {
            ShortcutAction::Redo
        } else {
            ShortcutAction::Undo
        };
    }
    if modifiers.ctrl && key == Key::Char('y') {
        return ShortcutAction::Redo;
    }
    if tool_drawing {
        return ShortcutAction::PassToTool;
    }
    match key {
        Key::Char(c) => {
            if '1' <= c && c <= '9' {
                ShortcutAction::ColorPreset((c as u32 - '1' as u32) as usize)
            } else if is_tool_key {
                ShortcutAction::SelectTool(c)
            } else if c == '+' || c == '=' {
                ShortcutAction::IncreaseLineWidth
            } else if c == '-' {
                ShortcutAction::DecreaseLineWidth
            } else {
                ShortcutAction::PassToTool
            }
        },
        _ => ShortcutAction::PassToTool,
    }
}

/// The editor's keyboard shortcuts. A released key is never one. Ctrl+Return
/// saves whatever the current tool is doing; Escape cancels unless the tool
/// is drawing, when the tool gets it; Ctrl+Z undoes and Ctrl+Shift+Z or
/// Ctrl+Y redoes, also while drawing. While the tool draws, every other key
/// goes to it. Otherwise the digits 1 to 9 pick colour presets 0 to 8, a
/// tool key picks its tool, and `+`, `=` and `-` change the line width.
pub proof fn lemma_shortcut_table(key: Key, modifiers: Modifiers, tool_drawing: bool, is_tool_key: bool)
    ensures
        shortcut_of(key, modifiers, false, tool_drawing, is_tool_key) == ShortcutAction::PassToTool,
        modifiers.ctrl && key == Key::Return ==> shortcut_of(key, modifiers, true, tool_drawing, is_tool_key)
            == ShortcutAction::Save,
        key == Key::Escape ==> shortcut_of(key, modifiers, true, tool_drawing, is_tool_key) == if tool_drawing {
            ShortcutAction::PassToTool
        } else {
            ShortcutAction::Cancel
        },
        modifiers.ctrl && key == Key::Char('z') ==> shortcut_of(key, modifiers, true, tool_drawing, is_tool_key)
            == if modifiers.shift {
            ShortcutAction::Redo
        } else {
            ShortcutAction::Undo
        },
        modifiers.ctrl && key == Key::Char('y') ==> shortcut_of(key, modifiers, true, tool_drawing, is_tool_key)
            == ShortcutAction::Redo,
        tool_drawing && !(modifiers.ctrl && (key == Key::Return || key == Key::Char('z') || key
            == Key::Char('y'))) ==> shortcut_of(key, modifiers, true, tool_drawing, is_tool_key)
            == ShortcutAction::PassToTool,
        !tool_drawing ==> (key matches Key::Char(c) ==> ('1' <= c <= '9' ==> shortcut_of(
            key,
            modifiers,
            true,
            tool_drawing,
            is_tool_key,
        ) == ShortcutAction::ColorPreset((c as int - '1' as int) as usize))),
        !tool_drawing && is_tool_key ==> (key matches Key::Char(c) ==> (!('1' <= c <= '9') && !(
        modifiers.ctrl && (c == 'z' || c == 'y')) ==> shortcut_of(key, modifiers, true, tool_drawing, is_tool_key)
            == ShortcutAction::SelectTool(c))),
        !tool_drawing && !is_tool_key && !modifiers.ctrl ==> (key == Key::Char('+') || key == Key::Char('='))
            ==> shortcut_of(key, modifiers, true, tool_drawing, is_tool_key)
            == ShortcutAction::IncreaseLineWidth,
        !tool_drawing && !is_tool_key && !modifiers.ctrl && key == Key::Char('-') ==> shortcut_of(
            key,
            modifiers,
            true,
            tool_drawing,
            is_tool_key,
        ) == ShortcutAction::DecreaseLineWidth,
{
}

/// A tab of the colour picker.
#[derive(Debug, Clone, Copy, PartialEq, Eq, Structural)]
pub enum ColorPickerTab {
    /// HSV colour wheel.
    Hsv,
    /// RGB sliders.
    Rgb,
    /// Colour palette.
    Palette,
}

impl Default for ColorPickerTab {
    fn default() -> (t: Self)
        ensures
            t == ColorPickerTab::Hsv,
    {
        ColorPickerTab::Hsv
    }
}

impl ColorPickerTab {
    /// All tabs, in order.
    pub fn all() -> (r: [Self; 3])
        ensures
            r@ == seq![ColorPickerTab::Hsv, ColorPickerTab::Rgb, ColorPickerTab::Palette],
    {
        [ColorPickerTab::Hsv, ColorPickerTab::Rgb, ColorPickerTab::Palette]
    }

    /// The tab's label.
    pub fn label(&self) -> (s: &'static str)
        ensures
            s@ == match self {
                ColorPickerTab::Hsv => "HSV"@,
                ColorPickerTab::Rgb => "RGB"@,
                ColorPickerTab::Palette => "Palette"@,
            },
    {
        match self {
            ColorPickerTab::Hsv => "HSV",
            ColorPickerTab::Rgb => "RGB",
            ColorPickerTab::Palette => "Palette",
        }
    }
}

/// Height of the annotation toolbar above the image.
pub const TOOLBAR_HEIGHT: u32 = 48;

/// Size and position of the annotation window for an image.
#[derive(Debug, Clone, Copy, PartialEq, Eq, Structural)]
pub struct WindowPlacement {
    pub width: u32,
    pub height: u32,
    pub x: i32,
    pub y: i32,
}

/// `i32` value that `v as i32` gives.
pub open spec fn as_i32(v: u32) -> int {
    if v < 0x8000_0000 {
        v as int
    } else {
        v - 0x1_0000_0000
    }
}

/// Division of `a` by 2 rounding toward zero, as Rust's `/` does.
pub open spec fn half_toward_zero(a: int) -> int {
    if a >= 0 {
        a / 2
    } else {
        -((-a) / 2)
    }
}

/// The window holds the image with the toolbar above it, centred on the
/// screen but never starting left of or above it.
pub open spec fn placement_of(screen_width: u16, screen_height: u16, width: u32, height: u32) -> WindowPlacement {
    let h = (height + TOOLBAR_HEIGHT) as u32;
    let px = half_toward_zero(screen_width - as_i32(width));
    let py = half_toward_zero(screen_height - as_i32(h));
    WindowPlacement {
        width,
        height: h,
        x: if px < 0 { 0 } else { px as i32 },
        y: if py < 0 { 0 } else { py as i32 },
    }
}

/// Where the annotation window for a `width` x `height` image goes on a
/// screen of the given size.
pub fn window_placement(screen_width: u16, screen_height: u16, width: u32, height: u32) -> (p: WindowPlacement)
    requires
        height + TOOLBAR_HEIGHT <= u32::MAX,
        screen_width - as_i32(width) <= i32::MAX,
        screen_height - as_i32((height + TOOLBAR_HEIGHT) as u32) <= i32::MAX,
    ensures
        p == placement_of(screen_width, screen_height, width, height),
{
    let h = height + TOOLBAR_HEIGHT;
    let w_signed: i64 = if width < 0x8000_0000 {
        width as i64
    } else {
        width as i64 - 0x1_0000_0000
    };
    let h_signed: i64 = if h < 0x8000_0000 {
        h as i64
    } else {
        h as i64 - 0x1_0000_0000
    };
    let dx: i64 = screen_width as i64 - w_signed;
    let dy: i64 = screen_height as i64 - h_signed;
    let px: i64 = if dx >= 0 {
        dx / 2
    } else {
        -((-dx) / 2)
    };
    let py: i64 = if dy >= 0 {
        dy / 2
    } else {
        -((-dy) / 2)
    };
    WindowPlacement {
        width,
        height: h,
        x: if px < 0 {
            0
        } else {
            px as i32
        },
        y: if py < 0 {
            0
        } else {
            py as i32
        },
    }
}

} // verus!
