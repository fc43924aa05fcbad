//! What the host hands to the map for one frame.

use vstd::prelude::*;
use crate::projection::ScreenPos;

verus! {

/// The shape that the pointer takes over the map.
#[derive(Clone, Copy, Debug, PartialEq, Eq, Structural)]
pub enum CursorIcon {
    /// Something under the pointer can be taken hold of.
    Grab,
    /// The pointer holds something.
    Grabbing,
    /// The pointer places something.
    Crosshair,
    /// The pointer erases.
    NotAllowed,
    /// Something under the pointer can be opened.
    PointingHand,
}

/// The pointer's state over the map widget during one frame.
#[derive(Clone, Copy, Debug, PartialEq, Eq, Structural)]
pub struct PointerInput {
    /// Whether the pointer is over the widget.
    pub hovered: bool,
    /// Where the pointer hovers, if it is over the widget.
    pub hover_pos: Option<ScreenPos>,
    /// Where the pointer was when it last clicked or dragged the widget.
    pub interact_pointer_pos: Option<ScreenPos>,
    /// Whether a drag began this frame.
    pub drag_started: bool,
    /// Whether the widget is being dragged.
    pub dragged: bool,
    /// Whether a drag ended this frame.
    pub drag_stopped: bool,
    /// How far the pointer moved this frame while dragging, as a vector.
    pub drag_delta: ScreenPos,
    /// Whether the widget was clicked this frame.
    pub clicked: bool,
    /// Whether the widget was double-clicked this frame.
    pub double_clicked: bool,
    /// Whether the shift key is held.
    pub shift: bool,
    /// The scroll wheel's movement this frame: positive away from the user,
    /// negative toward the user, zero for none.
    pub scroll: i32,
}

impl PointerInput {
    /// Whether every position in the snapshot is within the screen limit.
    pub open spec fn wf(self) -> bool {
        &&& self.drag_delta.wf()
        &&& (self.hover_pos matches Some(p) ==> p.wf())
        &&& (self.interact_pointer_pos matches Some(p) ==> p.wf())
    }

    /// A snapshot in which nothing happens: the pointer is elsewhere.
    pub open spec fn spec_idle() -> PointerInput {
        PointerInput {
            hovered: false,
            hover_pos: None,
            interact_pointer_pos: None,
            drag_started: false,
            dragged: false,
            drag_stopped: false,
            drag_delta: ScreenPos { x: 0, y: 0 },
            clicked: false,
            double_clicked: false,
            shift: false,
            scroll: 0,
        }
    }

    /// A snapshot in which nothing happens: the pointer is elsewhere.
    pub fn idle() -> (r: PointerInput)
        ensures
            r == Self::spec_idle(),
            r.wf(),
    {
        PointerInput {
            hovered: false,
            hover_pos: None,
            interact_pointer_pos: None,
            drag_started: false,
            dragged: false,
            drag_stopped: false,
            drag_delta: ScreenPos { x: 0, y: 0 },
            clicked: false,
            double_clicked: false,
            shift: false,
            scroll: 0,
        }
    }

    /// Tests whether every position in the snapshot is within the screen limit.
    pub fn is_valid(&self) -> (r: bool)
        ensures
            r == self.wf(),
    {
        let hover_ok: bool = match self.hover_pos {
            Some(p) => p.is_valid(),
            None => true,
        };
        let interact_ok: bool = match self.interact_pointer_pos {
            Some(p) => p.is_valid(),
            None => true,
        };
        self.drag_delta.is_valid() && hover_ok && interact_ok
    }
}

} // verus!
