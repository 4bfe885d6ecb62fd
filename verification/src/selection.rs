//! Interactive selection: the state machine that turns pointer and key
//! events into a selected region or a cancellation, and the overlay's
//! settings.

use vstd::prelude::*;
use crate::region::Region;

verus! {

/// Outcome of a selection.
#[derive(Debug, Clone, Copy, PartialEq, Eq, Structural)]
pub enum SelectionResult {
    /// The user selected a region.
    Selected(Region),
    /// The user cancelled the selection.
    Cancelled,
}

/// State of a selection in progress.
#[derive(Debug, Clone, Copy, PartialEq, Eq, Structural)]
pub enum SelectionState {
    /// Waiting for the user to start dragging.
    Idle,
    /// The user is dragging out a region.
    Dragging { start_x: i16, start_y: i16, current_x: i16, current_y: i16 },
}

/// A pointer button event: the button and the pointer's position.
#[derive(Debug, Clone, Copy, PartialEq, Eq, Structural)]
pub struct PointerEvent {
    /// Button number (1 left, 3 right).
    pub detail: u8,
    /// Pointer x in the overlay.
    pub event_x: i16,
    /// Pointer y in the overlay.
    pub event_y: i16,
}

/// A key event: the key code.
#[derive(Debug, Clone, Copy, PartialEq, Eq, Structural)]
pub struct KeyEvent {
    /// Key code (9 Escape, 36 Return on common layouts).
    pub detail: u8,
}

/// The events the selection reacts to.
#[derive(Debug, Clone, Copy, PartialEq, Eq, Structural)]
pub enum SelectionEvent {
    ButtonPress(PointerEvent),
    ButtonRelease(PointerEvent),
    Motion(PointerEvent),
    KeyPress(KeyEvent),
    /// Any other event.
    Other,
}

/// Key code of Escape.
pub const KEY_ESCAPE: u8 = 9;

/// Key code of Return.
pub const KEY_RETURN: u8 = 36;

/// The difference `b - a` fits in an `i16`.
pub open spec fn span_fits(a: i16, b: i16) -> bool {
    i16::MIN <= b - a <= i16::MAX
}

/// The distance between `a` and `b`.
pub open spec fn distance(a: i16, b: i16) -> int {
    if a <= b {
        b - a
    } else {
        a - b
    }
}

/// The region spanned by the corners `(x1, y1)` and `(x2, y2)`.
pub open spec fn normalized(x1: i16, y1: i16, x2: i16, y2: i16) -> Region {
    Region {
        x: if x1 <= x2 {
            x1
        } else {
            x2
        },
        y: if y1 <= y2 {
            y1
        } else {
            y2
        },
        width: distance(x1, x2) as u16,
        height: distance(y1, y2) as u16,
    }
}

/// Normalise a region so that its width and height are not negative.
pub fn normalize_region(x1: i16, y1: i16, x2: i16, y2: i16) -> (r: Region)
    requires
        span_fits(x1, x2),
        span_fits(y1, y2),
    ensures
        r == normalized(x1, y1, x2, y2),
{
    let x = if x1 <= x2 {
        x1
    } else {
        x2
    };
    let y = if y1 <= y2 {
        y1
    } else {
        y2
    };
    let dx: i16 = x2 - x1;
    let dy: i16 = y2 - y1;
    let width: u16 = if dx >= 0 {
        dx as u16
    } else {
        (0 - (dx as i32)) as u16
    };
    let height: u16 = if dy >= 0 {
        dy as u16
    } else {
        (0 - (dy as i32)) as u16
    };
    Region::new(x, y, width, height)
}

/// The drag of a state spans no more than an `i16` in each direction.
pub open spec fn state_fits(s: SelectionState) -> bool {
    match s {
        SelectionState::Idle => true,
        SelectionState::Dragging { start_x, start_y, current_x, current_y } => span_fits(
            start_x,
            current_x,
        ) && span_fits(start_y, current_y),
    }
}

/// The region a state shows: the dragged rectangle, none when idle.
pub open spec fn state_region(s: SelectionState) -> Option<Region> {
    match s {
        SelectionState::Idle => None,
        SelectionState::Dragging { start_x, start_y, current_x, current_y } => Some(
            normalized(start_x, start_y, current_x, current_y),
        ),
    }
}

/// A region large enough to be selected: more than one pixel each way.
pub open spec fn selectable(r: Region) -> bool {
    r.width > 1 && r.height > 1
}

/// The selection the state confirms, if its region is selectable.
pub open spec fn confirmed(s: SelectionState) -> Option<SelectionResult> {
    match state_region(s) {
        Some(r) => if selectable(r) {
            Some(SelectionResult::Selected(r))
        } else {
            None
        },
        None => None,
    }
}

/// Next state and result for a button press.
pub open spec fn press_step(s: SelectionState, e: PointerEvent) -> (SelectionState, Option<SelectionResult>) {
    if e.detail == 1 {
        (
            SelectionState::Dragging {
                start_x: e.event_x,
                start_y: e.event_y,
                current_x: e.event_x,
                current_y: e.event_y,
            },
            None,
        )
    } else if e.detail == 3 {
        (s, Some(SelectionResult::Cancelled))
    } else {
        (s, None)
    }
}

/// Result of a button release: the left button confirms a drag.
pub open spec fn release_result(s: SelectionState, e: PointerEvent) -> Option<SelectionResult> {
    if e.detail == 1 {
        confirmed(s)
    } else {
        None
    }
}

/// State after pointer motion: a drag follows the pointer.
pub open spec fn motion_state(s: SelectionState, e: PointerEvent) -> SelectionState {
    match s {
        SelectionState::Idle => SelectionState::Idle,
        SelectionState::Dragging { start_x, start_y, .. } => SelectionState::Dragging {
            start_x,
            start_y,
            current_x: e.event_x,
            current_y: e.event_y,
        },
    }
}

/// Result of a key press: Escape cancels, Return confirms a drag.
pub open spec fn key_result(s: SelectionState, e: KeyEvent) -> Option<SelectionResult> {
    if e.detail == KEY_ESCAPE {
        Some(SelectionResult::Cancelled)
    } else if e.detail == KEY_RETURN {
        confirmed(s)
    } else {
        None
    }
}

/// Next state and result for any event.
pub open spec fn step(s: SelectionState, e: SelectionEvent) -> (SelectionState, Option<SelectionResult>) {
    match e {
        SelectionEvent::ButtonPress(p) => press_step(s, p),
        SelectionEvent::ButtonRelease(p) => (s, release_result(s, p)),
        SelectionEvent::Motion(p) => (motion_state(s, p), None),
        SelectionEvent::KeyPress(k) => (s, key_result(s, k)),
        SelectionEvent::Other => (s, None),
    }
}

impl SelectionState {
    /// The current selection region, if dragging.
    pub fn current_region(&self) -> (r: Option<Region>)
        requires
            state_fits(*self),
        ensures
            r == state_region(*self),
    {
        match *self {
            SelectionState::Idle => None,
            SelectionState::Dragging { start_x, start_y, current_x, current_y } => Some(
                normalize_region(start_x, start_y, current_x, current_y),
            ),
        }
    }
}

/// The event would confirm a drag, which computes its region: a release of
/// the left button, or Return.
pub open spec fn confirms(e: SelectionEvent) -> bool {
    ||| e matches SelectionEvent::ButtonRelease(p) && p.detail == 1
    ||| e matches SelectionEvent::KeyPress(k) && k.detail == KEY_RETURN
}

/// Whether the event would confirm a drag.
pub fn confirms_selection(e: &SelectionEvent) -> (b: bool)
    ensures
        b == confirms(*e),
{
    match *e {
        SelectionEvent::ButtonRelease(p) => p.detail == 1,
        SelectionEvent::KeyPress(k) => k.detail == KEY_RETURN,
        _ => false,
    }
}

/// Turns events into a selection.
#[derive(Clone)]
pub struct SelectionHandler {
    state: SelectionState,
}

impl View for SelectionHandler {
    type V = SelectionState;

    closed spec fn view(&self) -> SelectionState {
        self.state
    }
}

impl SelectionHandler {
    /// A handler waiting for the user to start dragging.
    pub fn new() -> (h: Self)
        ensures
            h@ == SelectionState::Idle,
    {
        SelectionHandler { state: SelectionState::Idle }
    }

    /// The current state.
    pub fn state(&self) -> (s: &SelectionState)
        ensures
            *s == self@,
    {
        &self.state
    }

    /// Whether the drag spans no more than an `i16` each way, so that its
    /// region can be computed.
    pub fn in_range(&self) -> (b: bool)
        ensures
            b == state_fits(self@),
    {
        match self.state {
            SelectionState::Idle => true,
            SelectionState::Dragging { start_x, start_y, current_x, current_y } => {
                let dx = current_x as i32 - start_x as i32;
                let dy = current_y as i32 - start_y as i32;
                -32768 <= dx && dx <= 32767 && -32768 <= dy && dy <= 32767
            },
        }
    }

    /// The pointer position, if dragging.
    pub fn cursor_position(&self) -> (r: Option<(i16, i16)>)
        ensures
            r == match self@ {
                SelectionState::Idle => None,
                SelectionState::Dragging { current_x, current_y, .. } => Some((current_x, current_y)),
            },
    {
        match self.state {
            SelectionState::Idle => None,
            SelectionState::Dragging { current_x, current_y, .. } => Some((current_x, current_y)),
        }
    }

    /// The current selection region, if dragging.
    pub fn current_region(&self) -> (r: Option<Region>)
        requires
            state_fits(self@),
        ensures
            r == state_region(self@),
    {
        self.state.current_region()
    }

    /// Handle an event; a result ends the selection.
    pub fn handle_event(&mut self, event: &SelectionEvent) -> (r: Option<SelectionResult>)
        requires
            confirms(*event) ==> state_fits(old(self)@),
        ensures
            (final(self)@, r) == step(old(self)@, *event),
    {
        match *event {
            SelectionEvent::ButtonPress(e) => self.handle_button_press(&e),
            SelectionEvent::ButtonRelease(e) => self.handle_button_release(&e),
            SelectionEvent::Motion(e) => {
                self.handle_motion(&e);
                None
            },
            SelectionEvent::KeyPress(e) => self.handle_key_press(&e),
            SelectionEvent::Other => None,
        }
    }

    /// Handle a button press: the left button starts a drag, the right one
    /// cancels.
    pub fn handle_button_press(&mut self, event: &PointerEvent) -> (r: Option<SelectionResult>)
        ensures
            (final(self)@, r) == press_step(old(self)@, *event),
    {
        if event.detail == 1 {
            self.state = SelectionState::Dragging {
                start_x: event.event_x,
                start_y: event.event_y,
                current_x: event.event_x,
                current_y: event.event_y,
            };
            None
        } else if event.detail == 3 {
            Some(SelectionResult::Cancelled)
        } else {
            None
        }
    }

    /// Handle a button release: releasing the left button confirms a drag
    /// whose region is selectable.
    pub fn handle_button_release(&mut self, event: &PointerEvent) -> (r: Option<SelectionResult>)
        requires
            event.detail == 1 ==> state_fits(old(self)@),
        ensures
            final(self)@ == old(self)@,
            r == release_result(old(self)@, *event),
    {
        if event.detail == 1 {
            self.confirm()
        } else {
            None
        }
    }

    /// Handle pointer motion: a drag follows the pointer.
    pub fn handle_motion(&mut self, event: &PointerEvent)
        ensures
            final(self)@ == motion_state(old(self)@, *event),
    {
        match self.state {
            SelectionState::Idle => {},
            SelectionState::Dragging { start_x, start_y, .. } => {
                self.state = SelectionState::Dragging {
                    start_x,
                    start_y,
                    current_x: event.event_x,
                    current_y: event.event_y,
                };
            },
        }
    }

    /// Handle a key press: Escape cancels, Return confirms a drag whose
    /// region is selectable.
    pub fn handle_key_press(&mut self, event: &KeyEvent) -> (r: Option<SelectionResult>)
        requires
            event.detail == KEY_RETURN ==> state_fits(old(self)@),
        ensures
            final(self)@ == old(self)@,
            r == key_result(old(self)@, *event),
    {
        if event.detail == KEY_ESCAPE {
            Some(SelectionResult::Cancelled)
        } else if event.detail == KEY_RETURN {
            self.confirm()
        } else {
            None
        }
    }

    fn confirm(&self) -> (r: Option<SelectionResult>)
        requires
            state_fits(self@),
        ensures
            r == confirmed(self@),
    {
        match self.state.current_region() {
            Some(region) => if region.width > 1 && region.height > 1 {
                Some(SelectionResult::Selected(region))
            } else {
                None
            },
            None => None,
        }
    }
}

impl Default for SelectionHandler {
    fn default() -> (h: Self)
        ensures
            h@ == SelectionState::Idle,
    {
        Self::new()
    }
}

/// Settings of the selection overlay.
#[derive(Debug, Clone, Copy, PartialEq, Eq, Structural)]
pub struct SelectionConfig {
    /// Blur radius in pixels.
    pub blur_radius: usize,
    /// Selection line colour (RGB).
    pub line_color: u32,
    /// Selection line width.
    pub line_width: u32,
}

impl Default for SelectionConfig {
    fn default() -> (c: Self)
        ensures
            c == (SelectionConfig { blur_radius: 15, line_color: 0xFF6600, line_width: 2 }),
    {
        SelectionConfig { blur_radius: 15, line_color: 0xFF6600, line_width: 2 }
    }
}

/// The state after pointer motions to each position of `moves` in turn.
pub open spec fn after_motions(s: SelectionState, moves: Seq<PointerEvent>) -> SelectionState
    decreases moves.len(),
{
    if moves.len() == 0 {
        s
    } else {
        step(after_motions(s, moves.drop_last()), SelectionEvent::Motion(moves.last())).0
    }
}

/// Motion never moves the corner where a drag started: after a left press
/// at `p` and any motions, the drag runs from `p` to the last position the
/// pointer moved to (`p` itself when it has not moved), no motion ends the
/// selection, and a left release then selects the rectangle between those
/// two corners, when it is more than one pixel each way.
pub proof fn lemma_drag_keeps_start(p: PointerEvent, moves: Seq<PointerEvent>, q: PointerEvent)
    requires
        p.detail == 1,
        q.detail == 1,
    ensures
        ({
            let s = after_motions(step(SelectionState::Idle, SelectionEvent::ButtonPress(p)).0, moves);
            let (cx, cy) = if moves.len() == 0 {
                (p.event_x, p.event_y)
            } else {
                (moves.last().event_x, moves.last().event_y)
            };
            let w = if p.event_x <= cx { cx - p.event_x } else { p.event_x - cx };
            let h = if p.event_y <= cy { cy - p.event_y } else { p.event_y - cy };
            &&& s == SelectionState::Dragging {
                start_x: p.event_x,
                start_y: p.event_y,
                current_x: cx,
                current_y: cy,
            }
            &&& step(s, SelectionEvent::ButtonRelease(q)).1 == if w > 1 && h > 1 {
                Some(
                    SelectionResult::Selected(
                        Region {
                            x: if p.event_x <= cx { p.event_x } else { cx },
                            y: if p.event_y <= cy { p.event_y } else { cy },
                            width: w as u16,
                            height: h as u16,
                        },
                    ),
                )
            } else {
                None::<SelectionResult>
            }
        }),
    decreases moves.len(),
{
    if moves.len() > 0 {
        lemma_drag_keeps_start(p, moves.drop_last(), q);
    }
}

/// A right click or Escape cancels in any state and changes nothing; Return
/// answers exactly as a left release does; when no drag is under way,
/// neither Return nor a release selects anything.
pub proof fn lemma_cancel_and_confirm(s: SelectionState, right: PointerEvent, left: PointerEvent, key: KeyEvent)
    requires
        right.detail == 3,
        left.detail == 1,
    ensures
        step(s, SelectionEvent::ButtonPress(right)) == (s, Some(SelectionResult::Cancelled)),
        key.detail == 9 ==> step(s, SelectionEvent::KeyPress(key)) == (s, Some(SelectionResult::Cancelled)),
        key.detail == 36 ==> step(s, SelectionEvent::KeyPress(key)) == step(
            s,
            SelectionEvent::ButtonRelease(left),
        ),
        s == SelectionState::Idle ==> step(s, SelectionEvent::ButtonRelease(left)).1 is None,
{
}

/// Pointer motion never ends a selection.
pub proof fn lemma_motion_gives_no_result(s: SelectionState, e: PointerEvent)
    ensures
        step(s, SelectionEvent::Motion(e)).1 is None,
{
}

/// A selected region is always larger than one pixel each way.
pub proof fn lemma_selected_is_selectable(s: SelectionState, e: SelectionEvent)
    ensures
        step(s, e).1 matches Some(SelectionResult::Selected(r)) ==> selectable(r),
{
}

/// The right button and Escape cancel the selection from any state, and
/// leave the state as it was.
pub proof fn lemma_cancel_from_any_state(s: SelectionState, x: i16, y: i16)
    ensures
        step(s, SelectionEvent::ButtonPress(PointerEvent { detail: 3, event_x: x, event_y: y })) == (
        s, Some(SelectionResult::Cancelled)),
        step(s, SelectionEvent::KeyPress(KeyEvent { detail: KEY_ESCAPE })) == (
        s, Some(SelectionResult::Cancelled)),
{
}

/// Pointer motion while idle changes nothing.
pub proof fn lemma_idle_motion_noop(e: PointerEvent)
    ensures
        step(SelectionState::Idle, SelectionEvent::Motion(e)) == (SelectionState::Idle, None::<
            SelectionResult,
        >),
{
}

/// Pressing the left button at one corner, moving to the other and
/// releasing the left button selects the rectangle between the corners,
/// whenever it is larger than one pixel each way.
pub proof fn lemma_drag_selects(s: SelectionState, x1: i16, y1: i16, x2: i16, y2: i16)
    requires
        span_fits(x1, x2),
        span_fits(y1, y2),
    ensures
        ({
            let (s1, r1) = step(s, SelectionEvent::ButtonPress(PointerEvent { detail: 1, event_x: x1, event_y: y1 }));
            let (s2, r2) = step(s1, SelectionEvent::Motion(PointerEvent { detail: 0, event_x: x2, event_y: y2 }));
            let (s3, r3) = step(s2, SelectionEvent::ButtonRelease(PointerEvent { detail: 1, event_x: x2, event_y: y2 }));
            &&& r1 is None
            &&& r2 is None
            &&& state_fits(s1) && state_fits(s2)
            &&& r3 == if selectable(normalized(x1, y1, x2, y2)) {
                Some(SelectionResult::Selected(normalized(x1, y1, x2, y2)))
            } else {
                None
            }
        }),
{
}

/// The region between two corners does not depend on which corner comes
/// first, and it covers both corners.
pub proof fn lemma_normalized_symmetric(x1: i16, y1: i16, x2: i16, y2: i16)
    requires
        span_fits(x1, x2),
        span_fits(y1, y2),
    ensures
        normalized(x1, y1, x2, y2) == normalized(x2, y2, x1, y1),
        normalized(x1, y1, x2, y2).x <= x1 <= normalized(x1, y1, x2, y2).x + normalized(
            x1,
            y1,
            x2,
            y2,
        ).width,
        normalized(x1, y1, x2, y2).x <= x2 <= normalized(x1, y1, x2, y2).x + normalized(
            x1,
            y1,
            x2,
            y2,
        ).width,
        normalized(x1, y1, x2, y2).y <= y1 <= normalized(x1, y1, x2, y2).y + normalized(
            x1,
            y1,
            x2,
            y2,
        ).height,
        normalized(x1, y1, x2, y2).y <= y2 <= normalized(x1, y1, x2, y2).y + normalized(
            x1,
            y1,
            x2,
            y2,
        ).height,
{
}

} // verus!
