use garshot::region::Region;
use garshot::selection::{
    normalize_region, KeyEvent, PointerEvent, SelectionConfig, SelectionEvent, SelectionHandler, SelectionResult,
    SelectionState,
};

#[test]
fn test_normalize_region() {
    let r = normalize_region(10, 20, 110, 120);
    assert_eq!(r.x, 10);
    assert_eq!(r.y, 20);
    assert_eq!(r.width, 100);
    assert_eq!(r.height, 100);

    let r = normalize_region(110, 120, 10, 20);
    assert_eq!(r.x, 10);
    assert_eq!(r.y, 20);
    assert_eq!(r.width, 100);
    assert_eq!(r.height, 100);
}

#[test]
fn normalize_extreme_span() {
    let r = normalize_region(0, 0, -32768, 32767);
    assert_eq!(r, Region::new(-32768, 0, 32768, 32767));
}

fn press(b: u8, x: i16, y: i16) -> SelectionEvent {
    SelectionEvent::ButtonPress(PointerEvent { detail: b, event_x: x, event_y: y })
}
fn release(b: u8, x: i16, y: i16) -> SelectionEvent {
    SelectionEvent::ButtonRelease(PointerEvent { detail: b, event_x: x, event_y: y })
}
fn motion(x: i16, y: i16) -> SelectionEvent {
    SelectionEvent::Motion(PointerEvent { detail: 0, event_x: x, event_y: y })
}

#[test]
fn drag_and_release_selects() {
    let mut h = SelectionHandler::new();
    assert_eq!(h.handle_event(&press(1, 50, 60)), None);
    assert_eq!(h.handle_event(&motion(10, 20)), None);
    assert_eq!(h.cursor_position(), Some((10, 20)));
    assert_eq!(h.current_region(), Some(Region::new(10, 20, 40, 40)));
    assert_eq!(h.handle_event(&release(1, 10, 20)), Some(SelectionResult::Selected(Region::new(10, 20, 40, 40))));
}

#[test]
fn tiny_selection_is_ignored() {
    let mut h = SelectionHandler::new();
    h.handle_event(&press(1, 5, 5));
    h.handle_event(&motion(6, 9));
    assert_eq!(h.handle_event(&release(1, 6, 9)), None);
    assert_eq!(h.handle_event(&SelectionEvent::KeyPress(KeyEvent { detail: 36 })), None);
}

#[test]
fn cancel_and_confirm_keys() {
    let mut h = SelectionHandler::default();
    assert_eq!(h.handle_event(&press(3, 0, 0)), Some(SelectionResult::Cancelled));
    assert_eq!(h.handle_event(&SelectionEvent::KeyPress(KeyEvent { detail: 9 })), Some(SelectionResult::Cancelled));
    assert_eq!(h.handle_event(&SelectionEvent::KeyPress(KeyEvent { detail: 36 })), None);
    h.handle_event(&press(1, 0, 0));
    h.handle_event(&motion(3, 4));
    assert_eq!(
        h.handle_event(&SelectionEvent::KeyPress(KeyEvent { detail: 36 })),
        Some(SelectionResult::Selected(Region::new(0, 0, 3, 4)))
    );
}

#[test]
fn idle_motion_and_other_events_do_nothing() {
    let mut h = SelectionHandler::new();
    assert_eq!(h.handle_event(&motion(3, 3)), None);
    assert_eq!(*h.state(), SelectionState::Idle);
    assert_eq!(h.handle_event(&SelectionEvent::Other), None);
    assert_eq!(h.current_region(), None);
    assert!(h.in_range());
}

#[test]
fn selection_config_defaults() {
    let c = SelectionConfig::default();
    assert_eq!(c.blur_radius, 15);
    assert_eq!(c.line_color, 0xFF6600);
    assert_eq!(c.line_width, 2);
}
