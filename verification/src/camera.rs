//! The whole-number side of the cameras: dragging with the middle mouse
//! button and stepping the zoom with the wheel.

use crate::input_state::Vector2;
use vstd::prelude::*;

verus! {

/// What a camera remembers of a drag with the middle mouse button.
#[derive(Copy, Clone, Debug, PartialEq, Eq, Structural)]
pub struct CameraDrag {
    /// Whether the button was down at the last look.
    pub was_down: bool,
    /// Where the cursor was when the drag began.
    pub init_mouse: Vector2,
}

/// What a look at the middle mouse button found.
#[derive(Copy, Clone, Debug, PartialEq, Eq, Structural)]
pub enum DragChange {
    /// The button went down: a drag begins here.
    Started,
    /// The button went up: the drag is over.
    Ended,
    /// The button is as it was.
    Unchanged,
}

/// The zoom step after the wheel turned: one step closer for each step of
/// the wheel, and never closer than step 0.
pub open spec fn zoom_index_of(index: i16, scroll_delta: i32) -> int {
    if index - (scroll_delta as i16) < 0 {
        0
    } else {
        index - (scroll_delta as i16)
    }
}

impl CameraDrag {
    /// The drag after a look at the button, and what the look found.
    pub open spec fn after(self, middle: bool, position: Vector2) -> (CameraDrag, DragChange) {
        if middle && !self.was_down {
            (CameraDrag { was_down: true, init_mouse: position }, DragChange::Started)
        } else if !middle && self.was_down {
            (CameraDrag { was_down: false, ..self }, DragChange::Ended)
        } else {
            (self, DragChange::Unchanged)
        }
    }

    /// No drag, and none begun yet.
    pub fn new() -> (r: Self)
        ensures
            r == (CameraDrag { was_down: false, init_mouse: Vector2 { x: 0, y: 0 } }),
    {
        CameraDrag { was_down: false, init_mouse: Vector2 { x: 0, y: 0 } }
    }

    /// Looks at the middle mouse button: a drag begins where the button
    /// goes down and ends where it goes up.
    pub fn update(&mut self, middle: bool, position: Vector2) -> (change: DragChange)
        ensures
            (*final(self), change) == old(self).after(middle, position),
    {
        if middle && !self.was_down {
            self.was_down = true;
            self.init_mouse = position;
            DragChange::Started
        } else if !middle && self.was_down {
            self.was_down = false;
            DragChange::Ended
        } else {
            DragChange::Unchanged
        }
    }

    /// How far the cursor is from where the drag began.
    pub fn delta(&self, position: Vector2) -> (r: Vector2)
        requires
            i32::MIN <= position.x - self.init_mouse.x <= i32::MAX,
            i32::MIN <= position.y - self.init_mouse.y <= i32::MAX,
        ensures
            r.x == position.x - self.init_mouse.x,
            r.y == position.y - self.init_mouse.y,
    {
        Vector2 { x: position.x - self.init_mouse.x, y: position.y - self.init_mouse.y }
    }
}

/// Steps the zoom by what the wheel turned since the last frame.
pub fn zoom_index_after(index: i16, scroll_delta: i32) -> (r: i16)
    requires
        i16::MIN <= index - (scroll_delta as i16) <= i16::MAX,
    ensures
        r == zoom_index_of(index, scroll_delta),
{
    let steps: i16 = #[verifier::truncate]
    (scroll_delta as i16);
    let stepped: i16 = index - steps;
    if stepped < 0 {
        0
    } else {
        stepped
    }
}

} // verus!
