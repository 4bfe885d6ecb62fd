use garshot::annotate::{Key, Modifiers, MouseButton};
use garshot::tools::{
    ArrowTool, BlurTool, BrushTool, CursorShape, EllipseTool, InputEvent, KeyInput, LineTool, MouseEvent, Point,
    Rect, RectangleTool, TextTool,
};

fn no_mods() -> Modifiers {
    Modifiers { shift: false, ctrl: false, alt: false, super_key: false, caps_lock: false, num_lock: false }
}

fn mouse(x: i32, y: i32, button: Option<MouseButton>) -> MouseEvent {
    MouseEvent { position: Point { x, y }, button, modifiers: no_mods() }
}

fn key(k: Key) -> InputEvent {
    InputEvent::Key(KeyInput { key: k, keycode: 0, pressed: true, modifiers: no_mods() })
}

#[test]
fn rectangle_drag() {
    let mut t = RectangleTool::new();
    assert!(!t.can_commit());
    assert!(t.handle_event(&InputEvent::MousePress(mouse(30, 40, Some(MouseButton::Left)))));
    assert!(t.is_drawing());
    assert!(t.handle_event(&InputEvent::MouseMove(mouse(10, 50, None))));
    assert!(t.handle_event(&InputEvent::MouseRelease(mouse(10, 60, Some(MouseButton::Left)))));
    assert!(!t.is_drawing());
    assert_eq!(t.calculate_rect(), Some(Rect { x: 10, y: 40, width: 20, height: 20 }));
    assert!(t.can_commit());
    assert!(!t.handle_event(&InputEvent::MouseMove(mouse(0, 0, None))));
    t.reset();
    assert_eq!(t.calculate_rect(), None);
    assert_eq!(t.cursor(), CursorShape::Crosshair);
}

#[test]
fn flat_shapes_cannot_commit() {
    let mut r = BlurTool::new();
    r.handle_event(&InputEvent::MousePress(mouse(5, 5, Some(MouseButton::Left))));
    r.handle_event(&InputEvent::MouseRelease(mouse(9, 5, Some(MouseButton::Left))));
    assert!(!r.can_commit());
    let mut l = LineTool::new();
    l.handle_event(&InputEvent::MousePress(mouse(5, 5, Some(MouseButton::Left))));
    l.handle_event(&InputEvent::MouseRelease(mouse(9, 5, Some(MouseButton::Left))));
    assert!(l.can_commit());
    let mut e = EllipseTool::new();
    e.handle_event(&InputEvent::MousePress(mouse(5, 5, Some(MouseButton::Left))));
    e.handle_event(&InputEvent::MouseRelease(mouse(9, 5, Some(MouseButton::Left))));
    assert!(!e.can_commit());
    let mut a = ArrowTool::new();
    a.handle_event(&InputEvent::MousePress(mouse(5, 5, Some(MouseButton::Left))));
    assert!(!a.can_commit());
    assert!(!a.handle_event(&InputEvent::MouseRelease(mouse(5, 9, Some(MouseButton::Right)))));
    assert!(a.is_drawing());
}

#[test]
fn brush_stroke() {
    let mut b = BrushTool::new();
    b.handle_event(&InputEvent::MousePress(mouse(0, 0, Some(MouseButton::Left))));
    assert!(!b.can_commit());
    b.handle_event(&InputEvent::MouseMove(mouse(1, 1, None)));
    assert!(b.can_commit());
    b.handle_event(&InputEvent::MouseRelease(mouse(2, 2, Some(MouseButton::Left))));
    assert!(!b.is_drawing());
    b.reset();
    assert!(!b.can_commit());
}

#[test]
fn text_editing() {
    let mut t = TextTool::new();
    assert!(!t.handle_event(&key(Key::Char('a'))));
    t.handle_event(&InputEvent::MousePress(mouse(7, 8, Some(MouseButton::Left))));
    assert!(t.is_drawing());
    t.handle_event(&key(Key::Char('h')));
    t.handle_event(&key(Key::Space));
    t.handle_event(&key(Key::Char('i')));
    assert!(!t.handle_event(&key(Key::Char('\u{7}'))));
    t.handle_event(&key(Key::Backspace));
    assert_eq!(t.text(), "h ");
    assert!(!t.can_commit());
    t.handle_event(&key(Key::Return));
    assert!(t.can_commit());
    assert_eq!(t.position(), Some(Point { x: 7, y: 8 }));
    assert_eq!(t.cursor(), CursorShape::Text);
    t.handle_event(&InputEvent::MousePress(mouse(1, 1, Some(MouseButton::Left))));
    t.handle_event(&key(Key::Escape));
    assert_eq!(t.text(), "");
    assert_eq!(t.position(), None);
}
