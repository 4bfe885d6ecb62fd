//! The annotation tools' input handling: what each tool records from the
//! pointer and keyboard, and when it has something to commit.

use vstd::prelude::*;
use crate::annotate::{Key, Modifiers, MouseButton};

verus! {

/// A point in image coordinates.
#[derive(Debug, Clone, Copy, PartialEq, Eq, Structural)]
pub struct Point {
    pub x: i32,
    pub y: i32,
}

/// A rectangle in image coordinates.
#[derive(Debug, Clone, Copy, PartialEq, Eq, Structural)]
pub struct Rect {
    pub x: i32,
    pub y: i32,
    pub width: u32,
    pub height: u32,
}

/// A pointer event: where, which button, which modifiers.
#[derive(Debug, Clone, Copy, PartialEq, Eq, Structural)]
pub struct MouseEvent {
    pub position: Point,
    pub button: Option<MouseButton>,
    pub modifiers: Modifiers,
}

/// A key event.
#[derive(Debug, Clone, Copy, PartialEq, Eq, Structural)]
pub struct KeyInput {
    pub key: Key,
    pub keycode: u8,
    pub pressed: bool,
    pub modifiers: Modifiers,
}

/// An input event of the annotation editor.
#[derive(Debug, Clone, Copy, PartialEq, Eq, Structural)]
pub enum InputEvent {
    MousePress(MouseEvent),
    MouseRelease(MouseEvent),
    MouseMove(MouseEvent),
    Key(KeyInput),
    Expose,
}

/// The pointer shape a tool shows.
#[derive(Debug, Clone, Copy, PartialEq, Eq, Structural)]
pub enum CursorShape {
    Crosshair,
    Text,
}

/// What a dragging tool has recorded: the corners and whether the drag is
/// going on.
#[derive(Debug, Clone, Copy, PartialEq, Eq, Structural)]
pub struct DragState {
    pub start: Option<Point>,
    pub end: Option<Point>,
    pub drawing: bool,
}

/// A left-button pointer event.
pub open spec fn is_left(e: MouseEvent) -> bool {
    e.button == Some(MouseButton::Left)
}

/// A dragging tool after an event, and whether it needs a redraw: the left
/// button starts a drag at the pointer, motion moves its end, releasing the
/// left button ends it there.
pub open spec fn drag_step(s: DragState, e: InputEvent) -> (DragState, bool) {
    match e {
        InputEvent::MousePress(m) => if is_left(m) {
            (DragState { start: Some(m.position), end: Some(m.position), drawing: true }, true)
        } else {
            (s, false)
        },
        InputEvent::MouseMove(m) => if s.drawing {
            (DragState { end: Some(m.position), ..s }, true)
        } else {
            (s, false)
        },
        InputEvent::MouseRelease(m) => if is_left(m) && s.drawing {
            (DragState { end: Some(m.position), drawing: false, ..s }, true)
        } else {
            (s, false)
        },
        _ => (s, false),
    }
}

/// The tool with nothing recorded.
pub open spec fn drag_idle() -> DragState {
    DragState { start: None, end: None, drawing: false }
}

fn drag_handle(s: &mut DragState, event: &InputEvent) -> (r: bool)
    ensures
        (*final(s), r) == drag_step(*old(s), *event),
{
    match *event {
        InputEvent::MousePress(m) => {
            if m.button == Some(MouseButton::Left) {
                *s = DragState { start: Some(m.position), end: Some(m.position), drawing: true };
                true
            } else {
                false
            }
        },
        InputEvent::MouseMove(m) => {
            if s.drawing {
                s.end = Some(m.position);
                true
            } else {
                false
            }
        },
        InputEvent::MouseRelease(m) => {
            if m.button == Some(MouseButton::Left) && s.drawing {
                s.end = Some(m.position);
                s.drawing = false;
                true
            } else {
                false
            }
        },
        _ => false,
    }
}

/// The drag's corners are two different points.
pub open spec fn has_length(s: DragState) -> bool {
    s.start matches Some(a) && s.end matches Some(b) && (a.x != b.x || a.y != b.y)
}

fn corners_differ(s: &DragState) -> (r: bool)
    ensures
        r == has_length(*s),
{
    match (s.start, s.end) {
        (Some(a), Some(b)) => a.x != b.x || a.y != b.y,
        _ => false,
    }
}

/// The differences of the corners' coordinates fit in an `i32`.
pub open spec fn corners_fit(s: DragState) -> bool {
    s.start matches Some(a) && s.end matches Some(b) ==> i32::MIN <= b.x - a.x <= i32::MAX && i32::MIN
        <= b.y - a.y <= i32::MAX
}

/// The rectangle between the corners, when it is at least one pixel each
/// way.
pub open spec fn rect_of(s: DragState) -> Option<Rect> {
    match (s.start, s.end) {
        (Some(a), Some(b)) => {
            let w = if a.x <= b.x {
                b.x - a.x
            } else {
                a.x - b.x
            };
            let h = if a.y <= b.y {
                b.y - a.y
            } else {
                a.y - b.y
            };
            if w > 0 && h > 0 {
                Some(
                    Rect {
                        x: if a.x <= b.x {
                            a.x
                        } else {
                            b.x
                        },
                        y: if a.y <= b.y {
                            a.y
                        } else {
                            b.y
                        },
                        width: w as u32,
                        height: h as u32,
                    },
                )
            } else {
                None
            }
        },
        _ => None,
    }
}

fn abs_diff(a: i32, b: i32) -> (r: u32)
    requires
        i32::MIN <= b - a <= i32::MAX,
    ensures
        r == if a <= b {
            b - a
        } else {
            a - b
        },
{
    let d: i32 = b - a;
    if d >= 0 {
        d as u32
    } else {
        (0 - (d as i64)) as u32
    }
}

fn normalized_rect(s: &DragState) -> (r: Option<Rect>)
    requires
        corners_fit(*s),
    ensures
        r == rect_of(*s),
{
    match (s.start, s.end) {
        (Some(a), Some(b)) => {
            let x = if a.x <= b.x {
                a.x
            } else {
                b.x
            };
            let y = if a.y <= b.y {
                a.y
            } else {
                b.y
            };
            let width = abs_diff(a.x, b.x);
            let height = abs_diff(a.y, b.y);
            if width > 0 && height > 0 {
                Some(Rect { x, y, width, height })
            } else {
                None
            }
        },
        _ => None,
    }
}

/// Draws arrows from the start to the end of a drag.
pub struct ArrowTool {
    state: DragState,
}

/// Draws straight lines.
pub struct LineTool {
    state: DragState,
}

/// Draws rectangles.
pub struct RectangleTool {
    state: DragState,
}

/// Draws ellipses in the rectangle of a drag.
pub struct EllipseTool {
    state: DragState,
}

/// Marks a rectangle to blur.
pub struct BlurTool {
    state: DragState,
}

impl View for ArrowTool {
    type V = DragState;

    closed spec fn view(&self) -> DragState {
        self.state
    }
}

impl View for LineTool {
    type V = DragState;

    closed spec fn view(&self) -> DragState {
        self.state
    }
}

impl View for RectangleTool {
    type V = DragState;

    closed spec fn view(&self) -> DragState {
        self.state
    }
}

impl View for EllipseTool {
    type V = DragState;

    closed spec fn view(&self) -> DragState {
        self.state
    }
}

impl View for BlurTool {
    type V = DragState;

    closed spec fn view(&self) -> DragState {
        self.state
    }
}

impl ArrowTool {
    /// A tool with nothing drawn.
    pub fn new() -> (t: Self)
        ensures
            t@ == drag_idle(),
    {
        ArrowTool { state: DragState { start: None, end: None, drawing: false } }
    }

    /// Record an event; whether a redraw is needed.
    pub fn handle_event(&mut self, event: &InputEvent) -> (r: bool)
        ensures
            (final(self)@, r) == drag_step(old(self)@, *event),
    {
        drag_handle(&mut self.state, event)
    }

    /// Forget what was drawn.
    pub fn reset(&mut self)
        ensures
            final(self)@ == drag_idle(),
    {
        self.state = DragState { start: None, end: None, drawing: false };
    }

    /// The pointer shape.
    pub fn cursor(&self) -> (c: CursorShape)
        ensures
            c == CursorShape::Crosshair,
    {
        CursorShape::Crosshair
    }

    /// Whether a drag is going on.
    pub fn is_drawing(&self) -> (b: bool)
        ensures
            b == self@.drawing,
    {
        self.state.drawing
    }

    /// Whether there is an arrow to commit: its ends differ.
    pub fn can_commit(&self) -> (b: bool)
        ensures
            b == has_length(self@),
    {
        corners_differ(&self.state)
    }
}

impl LineTool {
    /// A tool with nothing drawn.
    pub fn new() -> (t: Self)
        ensures
            t@ == drag_idle(),
    {
        LineTool { state: DragState { start: None, end: None, drawing: false } }
    }

    /// Record an event; whether a redraw is needed.
    pub fn handle_event(&mut self, event: &InputEvent) -> (r: bool)
        ensures
            (final(self)@, r) == drag_step(old(self)@, *event),
    {
        drag_handle(&mut self.state, event)
    }

    /// Forget what was drawn.
    pub fn reset(&mut self)
        ensures
            final(self)@ == drag_idle(),
    {
        self.state = DragState { start: None, end: None, drawing: false };
    }

    /// The pointer shape.
    pub fn cursor(&self) -> (c: CursorShape)
        ensures
            c == CursorShape::Crosshair,
    {
        CursorShape::Crosshair
    }

    /// Whether a drag is going on.
    pub fn is_drawing(&self) -> (b: bool)
        ensures
            b == self@.drawing,
    {
        self.state.drawing
    }

    /// Whether there is a line to commit: its ends differ.
    pub fn can_commit(&self) -> (b: bool)
        ensures
            b == has_length(self@),
    {
        corners_differ(&self.state)
    }
}

impl RectangleTool {
    /// A tool with nothing drawn.
    pub fn new() -> (t: Self)
        ensures
            t@ == drag_idle(),
    {
        RectangleTool { state: DragState { start: None, end: None, drawing: false } }
    }

    /// The rectangle between the corners, when it is at least a pixel each
    /// way.
    pub fn calculate_rect(&self) -> (r: Option<Rect>)
        requires
            corners_fit(self@),
        ensures
            r == rect_of(self@),
    {
        normalized_rect(&self.state)
    }

    /// Record an event; whether a redraw is needed.
    pub fn handle_event(&mut self, event: &InputEvent) -> (r: bool)
        ensures
            (final(self)@, r) == drag_step(old(self)@, *event),
    {
        drag_handle(&mut self.state, event)
    }

    /// Forget what was drawn.
    pub fn reset(&mut self)
        ensures
            final(self)@ == drag_idle(),
    {
        self.state = DragState { start: None, end: None, drawing: false };
    }

    /// The pointer shape.
    pub fn cursor(&self) -> (c: CursorShape)
        ensures
            c == CursorShape::Crosshair,
    {
        CursorShape::Crosshair
    }

    /// Whether a drag is going on.
    pub fn is_drawing(&self) -> (b: bool)
        ensures
            b == self@.drawing,
    {
        self.state.drawing
    }

    /// Whether there is a rectangle to commit.
    pub fn can_commit(&self) -> (b: bool)
        requires
            corners_fit(self@),
        ensures
            b == rect_of(self@) is Some,
    {
        normalized_rect(&self.state).is_some()
    }
}

/// The corners' sums and differences fit in an `i32`, as the ellipse's
/// centre and radii need.
pub open spec fn ellipse_fits(s: DragState) -> bool {
    s.start matches Some(a) && s.end matches Some(b) ==> {
        &&& i32::MIN <= a.x + b.x <= i32::MAX
        &&& i32::MIN <= a.y + b.y <= i32::MAX
        &&& i32::MIN <= b.x - a.x <= i32::MAX
        &&& i32::MIN <= b.y - a.y <= i32::MAX
    }
}

/// The ellipse has both radii non-zero: the corners differ in both
/// coordinates.
pub open spec fn has_area(s: DragState) -> bool {
    s.start matches Some(a) && s.end matches Some(b) && a.x != b.x && a.y != b.y
}

impl EllipseTool {
    /// A tool with nothing drawn.
    pub fn new() -> (t: Self)
        ensures
            t@ == drag_idle(),
    {
        EllipseTool { state: DragState { start: None, end: None, drawing: false } }
    }

    /// Record an event; whether a redraw is needed.
    pub fn handle_event(&mut self, event: &InputEvent) -> (r: bool)
        ensures
            (final(self)@, r) == drag_step(old(self)@, *event),
    {
        drag_handle(&mut self.state, event)
    }

    /// Forget what was drawn.
    pub fn reset(&mut self)
        ensures
            final(self)@ == drag_idle(),
    {
        self.state = DragState { start: None, end: None, drawing: false };
    }

    /// The pointer shape.
    pub fn cursor(&self) -> (c: CursorShape)
        ensures
            c == CursorShape::Crosshair,
    {
        CursorShape::Crosshair
    }

    /// Whether a drag is going on.
    pub fn is_drawing(&self) -> (b: bool)
        ensures
            b == self@.drawing,
    {
        self.state.drawing
    }

    /// Whether there is an ellipse to commit: both radii are non-zero.
    pub fn can_commit(&self) -> (b: bool)
        requires
            ellipse_fits(self@),
        ensures
            b == has_area(self@),
    {
        match (self.state.start, self.state.end) {
            (Some(a), Some(b)) => a.x != b.x && a.y != b.y,
            _ => false,
        }
    }
}

impl BlurTool {
    /// A tool with nothing marked.
    pub fn new() -> (t: Self)
        ensures
            t@ == drag_idle(),
    {
        BlurTool { state: DragState { start: None, end: None, drawing: false } }
    }

    /// The rectangle between the corners, when it is at least a pixel each
    /// way.
    pub fn calculate_rect(&self) -> (r: Option<Rect>)
        requires
            corners_fit(self@),
        ensures
            r == rect_of(self@),
    {
        normalized_rect(&self.state)
    }

    /// Record an event; whether a redraw is needed.
    pub fn handle_event(&mut self, event: &InputEvent) -> (r: bool)
        ensures
            (final(self)@, r) == drag_step(old(self)@, *event),
    {
        drag_handle(&mut self.state, event)
    }

    /// Forget what was marked.
    pub fn reset(&mut self)
        ensures
            final(self)@ == drag_idle(),
    {
        self.state = DragState { start: None, end: None, drawing: false };
    }

    /// The pointer shape.
    pub fn cursor(&self) -> (c: CursorShape)
        ensures
            c == CursorShape::Crosshair,
    {
        CursorShape::Crosshair
    }

    /// Whether a drag is going on.
    pub fn is_drawing(&self) -> (b: bool)
        ensures
            b == self@.drawing,
    {
        self.state.drawing
    }

    /// Whether there is a region to blur.
    pub fn can_commit(&self) -> (b: bool)
        requires
            corners_fit(self@),
        ensures
            b == rect_of(self@) is Some,
    {
        normalized_rect(&self.state).is_some()
    }
}

/// Draws freehand strokes.
pub struct BrushTool {
    points: Vec<Point>,
    drawing: bool,
}

impl View for BrushTool {
    type V = (Seq<Point>, bool);

    closed spec fn view(&self) -> (Seq<Point>, bool) {
        (self.points@, self.drawing)
    }
}

/// The brush after an event, and whether a redraw is needed: the left
/// button starts a stroke at the pointer, motion extends it, releasing the
/// left button ends it with the last point.
pub open spec fn brush_step(s: (Seq<Point>, bool), e: InputEvent) -> ((Seq<Point>, bool), bool) {
    match e {
        InputEvent::MousePress(m) => if is_left(m) {
            ((seq![m.position], true), true)
        } else {
            (s, false)
        },
        InputEvent::MouseMove(m) => if s.1 {
            ((s.0.push(m.position), true), true)
        } else {
            (s, false)
        },
        InputEvent::MouseRelease(m) => if is_left(m) && s.1 {
            ((s.0.push(m.position), false), true)
        } else {
            (s, false)
        },
        _ => (s, false),
    }
}

impl BrushTool {
    /// A brush with no stroke.
    pub fn new() -> (t: Self)
        ensures
            t@ == (Seq::<Point>::empty(), false),
    {
        BrushTool { points: Vec::new(), drawing: false }
    }

    /// Record an event; whether a redraw is needed.
    pub fn handle_event(&mut self, event: &InputEvent) -> (r: bool)
        ensures
            (final(self)@, r) == brush_step(old(self)@, *event),
    {
        match *event {
            InputEvent::MousePress(m) => {
                if m.button == Some(MouseButton::Left) {
                    self.points.clear();
                    self.points.push(m.position);
                    self.drawing = true;
                    assert(self.points@ =~= seq![m.position]);
                    true
                } else {
                    false
                }
            },
            InputEvent::MouseMove(m) => {
                if self.drawing {
                    self.points.push(m.position);
                    true
                } else {
                    false
                }
            },
            InputEvent::MouseRelease(m) => {
                if m.button == Some(MouseButton::Left) && self.drawing {
                    self.points.push(m.position);
                    self.drawing = false;
                    true
                } else {
                    false
                }
            },
            _ => false,
        }
    }

    /// Forget the stroke.
    pub fn reset(&mut self)
        ensures
            final(self)@ == (Seq::<Point>::empty(), false),
    {
        self.points.clear();
        self.drawing = false;
    }

    /// The pointer shape.
    pub fn cursor(&self) -> (c: CursorShape)
        ensures
            c == CursorShape::Crosshair,
    {
        CursorShape::Crosshair
    }

    /// Whether a stroke is going on.
    pub fn is_drawing(&self) -> (b: bool)
        ensures
            b == self@.1,
    {
        self.drawing
    }

    /// Whether there is a stroke to commit: at least two points.
    pub fn can_commit(&self) -> (b: bool)
        ensures
            b == (self@.0.len() >= 2),
    {
        self.points.len() >= 2
    }
}

/// Whether `c` is a control character: general category Cc, the ranges
/// U+0000..=U+001F and U+007F..=U+009F (`char::is_control`).
pub open spec fn is_control(c: char) -> bool {
    c <= '\u{1f}' || ('\u{7f}' <= c && c <= '\u{9f}')
}

fn char_is_control(c: char) -> (b: bool)
    ensures
        b == is_control(c),
{
    c <= '\u{1f}' || ('\u{7f}' <= c && c <= '\u{9f}')
}

/// What the text tool holds: where the text goes, the text, whether it is
/// being edited.
pub ghost struct TextState {
    pub position: Option<Point>,
    pub text: Seq<char>,
    pub editing: bool,
}

/// The text tool after an event, and whether a redraw is needed. A left
/// click ends editing, or starts new text at the pointer; while editing,
/// Return ends it, Escape drops the text, Backspace removes the last
/// character, and characters other than control characters are added.
pub open spec fn text_step(s: TextState, e: InputEvent) -> (TextState, bool) {
    match e {
        InputEvent::MousePress(m) => if is_left(m) {
            if s.editing {
                (TextState { editing: false, ..s }, true)
            } else {
                (TextState { position: Some(m.position), text: Seq::empty(), editing: true }, true)
            }
        } else {
            (s, false)
        },
        InputEvent::Key(k) => if s.editing && k.pressed {
            match k.key {
                Key::Return => (TextState { editing: false, ..s }, true),
                Key::Escape => (TextState { position: None, text: Seq::empty(), editing: false }, true),
                Key::Backspace => (TextState {
                    text: if s.text.len() > 0 {
                        s.text.drop_last()
                    } else {
                        s.text
                    },
                    ..s
                }, true),
                Key::Char(c) => if !is_control(c) {
                    (TextState { text: s.text.push(c), ..s }, true)
                } else {
                    (s, false)
                },
                Key::Space => (TextState { text: s.text.push(' '), ..s }, true),
                _ => (s, false),
            }
        } else {
            (s, false)
        },
        _ => (s, false),
    }
}

/// Adds text annotations.
pub struct TextTool {
    position: Option<Point>,
    text: Vec<char>,
    editing: bool,
}

impl View for TextTool {
    type V = TextState;

    closed spec fn view(&self) -> TextState {
        TextState { position: self.position, text: self.text@, editing: self.editing }
    }
}

impl TextTool {
    /// A tool with no text.
    pub fn new() -> (t: Self)
        ensures
            t@ == (TextState { position: None, text: Seq::empty(), editing: false }),
    {
        TextTool { position: None, text: Vec::new(), editing: false }
    }

    /// Record an event; whether a redraw is needed.
    pub fn handle_event(&mut self, event: &InputEvent) -> (r: bool)
        ensures
            (final(self)@, r) == text_step(old(self)@, *event),
    {
        match *event {
            InputEvent::MousePress(m) => {
                if m.button == Some(MouseButton::Left) {
                    if self.editing {
                        self.editing = false;
                        return true;
                    }
                    self.position = Some(m.position);
                    self.text.clear();
                    self.editing = true;
                    true
                } else {
                    false
                }
            },
            InputEvent::Key(k) => {
                if self.editing && k.pressed {
                    match k.key {
                        Key::Return => {
                            self.editing = false;
                            true
                        },
                        Key::Escape => {
                            self.reset();
                            true
                        },
                        Key::Backspace => {
                            if self.text.len() > 0 {
                                self.text.pop();
                            }
                            true
                        },
                        Key::Char(c) => {
                            if !char_is_control(c) {
                                self.text.push(c);
                                return true;
                            }
                            false
                        },
                        Key::Space => {
                            self.text.push(' ');
                            true
                        },
                        _ => false,
                    }
                } else {
                    false
                }
            },
            _ => false,
        }
    }

    /// Forget the text.
    pub fn reset(&mut self)
        ensures
            final(self)@ == (TextState { position: None, text: Seq::empty(), editing: false }),
    {
        self.position = None;
        self.text.clear();
        self.editing = false;
    }

    /// The text typed so far.
    pub fn text(&self) -> (s: String)
        ensures
            s@ == self@.text,
    {
        crate::text::string_of(self.text.as_slice())
    }

    /// Where the text goes.
    pub fn position(&self) -> (p: Option<Point>)
        ensures
            p == self@.position,
    {
        self.position
    }

    /// The pointer shape.
    pub fn cursor(&self) -> (c: CursorShape)
        ensures
            c == CursorShape::Text,
    {
        CursorShape::Text
    }

    /// Whether text is being edited.
    pub fn is_drawing(&self) -> (b: bool)
        ensures
            b == self@.editing,
    {
        self.editing
    }

    /// Whether there is text to commit: placed, not empty, done editing.
    pub fn can_commit(&self) -> (b: bool)
        ensures
            b == (self@.position is Some && self@.text.len() > 0 && !self@.editing),
    {
        self.position.is_some() && self.text.len() > 0 && !self.editing
    }
}

/// Pressing the left button at one point, moving and releasing it at
/// another records the two points as the drag's corners and ends the drag.
pub proof fn lemma_drag_records_corners(s: DragState, a: MouseEvent, m: MouseEvent, b: MouseEvent)
    requires
        is_left(a),
        is_left(b),
    ensures
        ({
            let s1 = drag_step(s, InputEvent::MousePress(a)).0;
            let s2 = drag_step(s1, InputEvent::MouseMove(m)).0;
            let s3 = drag_step(s2, InputEvent::MouseRelease(b)).0;
            s3 == DragState { start: Some(a.position), end: Some(b.position), drawing: false }
        }),
{
}

/// While editing, Backspace takes back a character just typed.
pub proof fn lemma_backspace_undoes_typing(s: TextState, k: KeyInput, c: char, back: KeyInput)
    requires
        s.editing,
        k.pressed,
        k.key == Key::Char(c),
        !is_control(c),
        back.pressed,
        back.key == Key::Backspace,
    ensures
        text_step(text_step(s, InputEvent::Key(k)).0, InputEvent::Key(back)).0 == s,
{
    assert(s.text.push(c).drop_last() =~= s.text);
}

/// The text tool after typing the characters of `cs` in turn, each as a
/// pressed key with the modifiers `mods`.
pub open spec fn typed(s: TextState, cs: Seq<char>, mods: Modifiers) -> TextState
    decreases cs.len(),
{
    if cs.len() == 0 {
        s
    } else {
        text_step(
            typed(s, cs.drop_last(), mods),
            InputEvent::Key(KeyInput { key: Key::Char(cs.last()), keycode: 0, pressed: true, modifiers: mods }),
        ).0
    }
}

/// A left click while text is being edited finishes it: the text and its
/// place are kept, ready to commit; a left click otherwise starts new,
/// empty text at the pointer.
pub proof fn lemma_click_finishes_text(s: TextState, m: MouseEvent)
    requires
        m.button == Some(MouseButton::Left),
    ensures
        s.editing ==> text_step(s, InputEvent::MousePress(m)) == (TextState {
            position: s.position,
            text: s.text,
            editing: false,
        }, true),
        !s.editing ==> text_step(s, InputEvent::MousePress(m)) == (TextState {
            position: Some(m.position),
            text: Seq::<char>::empty(),
            editing: true,
        }, true),
{
}

/// Clicking at `a`, typing printable characters and clicking anywhere else
/// leaves exactly the typed text at `a`, no longer being edited.
pub proof fn lemma_click_type_click(s: TextState, a: MouseEvent, cs: Seq<char>, mods: Modifiers, b: MouseEvent)
    requires
        !s.editing,
        a.button == Some(MouseButton::Left),
        b.button == Some(MouseButton::Left),
        forall|i: int| 0 <= i < cs.len() ==> !is_control(#[trigger] cs[i]),
    ensures
        text_step(typed(text_step(s, InputEvent::MousePress(a)).0, cs, mods), InputEvent::MousePress(b)).0
            == (TextState { position: Some(a.position), text: cs, editing: false }),
{
    let s1 = text_step(s, InputEvent::MousePress(a)).0;
    lemma_typing_appends(s1, cs, mods);
}

/// While editing, typing printable characters appends them to the text and
/// keeps its place.
pub proof fn lemma_typing_appends(s: TextState, cs: Seq<char>, mods: Modifiers)
    requires
        s.editing,
        forall|i: int| 0 <= i < cs.len() ==> !is_control(#[trigger] cs[i]),
    ensures
        typed(s, cs, mods) == (TextState { position: s.position, text: s.text + cs, editing: true }),
    decreases cs.len(),
{
    if cs.len() > 0 {
        assert forall|i: int| 0 <= i < cs.drop_last().len() implies !is_control(#[trigger] cs.drop_last()[i]) by {
            assert(cs.drop_last()[i] == cs[i]);
        }
        lemma_typing_appends(s, cs.drop_last(), mods);
        assert(!is_control(cs[cs.len() - 1]));
        assert((s.text + cs.drop_last()).push(cs.last()) =~= s.text + cs);
    } else {
        assert(s.text + cs =~= s.text);
    }
}

/// While editing, Return finishes the text, keeping it and its place, and
/// Escape throws it away.
pub proof fn lemma_return_and_escape(s: TextState, k: KeyInput)
    requires
        s.editing,
        k.pressed,
    ensures
        k.key == Key::Return ==> text_step(s, InputEvent::Key(k)).0 == (TextState {
            position: s.position,
            text: s.text,
            editing: false,
        }),
        k.key == Key::Escape ==> text_step(s, InputEvent::Key(k)).0 == (TextState {
            position: None,
            text: Seq::<char>::empty(),
            editing: false,
        }),
{
}

} // verus!
