//! Selecting a rectangle of the raster by dragging the mouse.
//!
//! Positions are canvas pixels. A position is `None` where the mouse was
//! outside the canvas.

use vstd::prelude::*;

verus! {

/// A drag in progress: where the button went down and where the mouse was
/// last seen on the canvas.
#[derive(Clone, Copy, Debug, PartialEq, Eq)]
pub struct MouseDrag {
    pub start: (u32, u32),
    pub curr: (u32, u32),
}

/// A rectangle of canvas pixels with `x_start < x_end` and `y_start < y_end`.
#[derive(Clone, Copy, Debug, PartialEq, Eq, Structural)]
pub struct Selection {
    pub x_start: u32,
    pub y_start: u32,
    pub x_end: u32,
    pub y_end: u32,
}

/// The smaller of two coordinates.
pub open spec fn lower(a: u32, b: u32) -> u32 {
    if a <= b {
        a
    } else {
        b
    }
}

/// The larger of two coordinates.
pub open spec fn upper(a: u32, b: u32) -> u32 {
    if a <= b {
        b
    } else {
        a
    }
}

/// The rectangle between the two corners of a drag. A drag whose corners
/// share a column or a row spans no area and selects nothing.
pub open spec fn selected(drag: MouseDrag) -> Option<Selection> {
    if drag.start.0 == drag.curr.0 || drag.start.1 == drag.curr.1 {
        None
    } else {
        Some(
            Selection {
                x_start: lower(drag.start.0, drag.curr.0),
                y_start: lower(drag.start.1, drag.curr.1),
                x_end: upper(drag.start.0, drag.curr.0),
                y_end: upper(drag.start.1, drag.curr.1),
            },
        )
    }
}

/// The drag after the mouse was seen at `at`: the corner moves there, and
/// stays where it was while the mouse is off the canvas.
pub open spec fn moved(drag: MouseDrag, at: Option<(u32, u32)>) -> MouseDrag {
    match at {
        Some(position) => MouseDrag { start: drag.start, curr: position },
        None => drag,
    }
}

/// The rectangle of a drag does not depend on the direction of the drag:
/// from either corner to the other it is the same.
pub proof fn lemma_selected_either_way(drag: MouseDrag)
    ensures
        selected(drag) == selected(MouseDrag { start: drag.curr, curr: drag.start }),
{
}

/// The button went down: a drag starts where the mouse is, if it is on the
/// canvas.
pub fn on_msg_mouse_down(at: Option<(u32, u32)>) -> (drag: Option<MouseDrag>)
    ensures
        drag == match at {
            Some(position) => Some(MouseDrag { start: position, curr: position }),
            None => None,
        },
{
    match at {
        Some(position) => Some(MouseDrag { start: position, curr: position }),
        None => None,
    }
}

/// The mouse moved during a drag. Returns whether the drag goes on: it does
/// while the mouse is on the canvas, and ends, as with the button released,
/// when the mouse has left it.
pub fn on_msg_mouse_move(drag: &mut MouseDrag, at: Option<(u32, u32)>) -> (tracking: bool)
    ensures
        *final(drag) == moved(*old(drag), at),
        tracking == at.is_some(),
{
    match at {
        Some(position) => {
            drag.curr = position;
            true
        },
        None => false,
    }
}

/// The button was released, at `at` or off the canvas: the drag ends and
/// gives the rectangle between its corners, ordered, or nothing where it
/// spans no area.
pub fn on_msg_mouse_up(drag: MouseDrag, at: Option<(u32, u32)>) -> (selection: Option<Selection>)
    ensures
        selection == selected(moved(drag, at)),
        selection matches Some(s) ==> s.x_start < s.x_end && s.y_start < s.y_end,
{
    let curr = match at {
        Some(position) => position,
        None => drag.curr,
    };
    let (x_start, x_end) = if curr.0 > drag.start.0 {
        (drag.start.0, curr.0)
    } else if curr.0 < drag.start.0 {
        (curr.0, drag.start.0)
    } else {
        return None;
    };
    let (y_start, y_end) = if curr.1 > drag.start.1 {
        (drag.start.1, curr.1)
    } else if curr.1 < drag.start.1 {
        (curr.1, drag.start.1)
    } else {
        return None;
    };
    Some(Selection { x_start, y_start, x_end, y_end })
}

} // verus!
