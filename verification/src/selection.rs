//! The selection state machine: a mouse drag that spans a rectangle in pixel
//! space and, on release, asks for that rectangle to become the new view.
//!
//! The machine is advanced once per frame with the sampled button state and
//! cursor position. It never changes the view itself; it only reports what
//! the frame should do.

use crate::pixel::{Pixel, PixelRect};
use vstd::prelude::*;

verus! {

/// The drag in progress: where the button went down and where the cursor
/// was last seen.
#[derive(Clone, Copy, Debug, PartialEq, Eq, Structural)]
pub struct SelectionDrag {
    pub anchor: Pixel,
    pub current: Pixel,
}

/// Whether a drag is in progress. `Dragging` is carried from frame to frame
/// for as long as the button stays down.
#[derive(Clone, Copy, Debug, PartialEq, Eq, Structural)]
pub enum SelectionState {
    Idle,
    Dragging(SelectionDrag),
}

/// What a frame has to do for the selection.
#[derive(Clone, Copy, Debug, PartialEq, Eq, Structural)]
pub enum SelectionAction {
    /// Nothing changes.
    Wait,
    /// Show the outline of this rectangle over a copy of the last rendering.
    Preview(PixelRect),
    /// The drag ended on this rectangle: make it the new view.
    Commit(PixelRect),
    /// The drag ended on a rectangle without area: drop it.
    Discard,
}

/// The pixel that stands for a cursor position: the position itself, or the
/// origin where the position could not be resolved.
pub open spec fn spec_anchor_of(cursor: Option<Pixel>) -> Pixel {
    match cursor {
        Some(position) => position,
        None => Pixel { x: 0, y: 0 },
    }
}

impl SelectionDrag {
    /// The normalized rectangle between the anchor and the cursor.
    pub open spec fn spec_rect(self) -> PixelRect {
        PixelRect::spec_spanning(self.anchor, self.current)
    }

    /// The drag after the cursor was sampled again; a position that could
    /// not be resolved counts as no movement.
    pub open spec fn spec_moved(self, cursor: Option<Pixel>) -> SelectionDrag {
        match cursor {
            Some(position) => SelectionDrag { anchor: self.anchor, current: position },
            None => self,
        }
    }

    /// The drag that starts when the button goes down with the cursor at
    /// `cursor`.
    pub open spec fn spec_started(cursor: Option<Pixel>) -> SelectionDrag {
        SelectionDrag { anchor: spec_anchor_of(cursor), current: spec_anchor_of(cursor) }
    }

    /// Computes the normalized rectangle between the anchor and the cursor.
    pub fn rect(&self) -> (rect: PixelRect)
        ensures
            rect == self.spec_rect(),
            rect.well_formed(),
    {
        PixelRect::spanning(self.anchor, self.current)
    }
}

impl SelectionState {
    /// One step of the machine, as a function of the state, the button and
    /// the cursor:
    ///
    /// | state    | button | next state | action                          |
    /// |----------|--------|------------|---------------------------------|
    /// | Idle     | up     | Idle       | none                            |
    /// | Idle     | down   | Dragging   | none; the anchor is recorded    |
    /// | Dragging | down   | Dragging   | preview of the rectangle so far |
    /// | Dragging | up     | Idle       | commit, or discard if no area   |
    pub open spec fn spec_advance(self, button_down: bool, cursor: Option<Pixel>) -> (
        SelectionState,
        SelectionAction,
    ) {
        match self {
            SelectionState::Idle => if button_down {
                (
                    SelectionState::Dragging(SelectionDrag::spec_started(cursor)),
                    SelectionAction::Wait,
                )
            } else {
                (SelectionState::Idle, SelectionAction::Wait)
            },
            SelectionState::Dragging(drag) => if button_down {
                (
                    SelectionState::Dragging(drag.spec_moved(cursor)),
                    SelectionAction::Preview(drag.spec_moved(cursor).spec_rect()),
                )
            } else {
                (
                    SelectionState::Idle,
                    if drag.spec_rect().spec_is_degenerate() {
                        SelectionAction::Discard
                    } else {
                        SelectionAction::Commit(drag.spec_rect())
                    },
                )
            },
        }
    }

    /// The state and the action after a whole gesture: the button goes down
    /// at `from`, the cursor is dragged to `to`, and the button is released.
    pub open spec fn spec_gesture(from: Pixel, to: Pixel) -> (SelectionState, SelectionAction) {
        let pressed = SelectionState::Idle.spec_advance(true, Some(from)).0;
        let dragged = pressed.spec_advance(true, Some(to)).0;
        dragged.spec_advance(false, Some(to))
    }

    /// Advances the machine by one frame. `button_down` is the sampled state
    /// of the button and `cursor` the sampled position, `None` where it could
    /// not be resolved. Returns the next state and what the frame has to do.
    pub fn advance(self, button_down: bool, cursor: Option<Pixel>) -> (next: (
        SelectionState,
        SelectionAction,
    ))
        ensures
            next == self.spec_advance(button_down, cursor),
    {
        match self {
            SelectionState::Idle => {
                if button_down {
                    let anchor = match cursor {
                        Some(position) => position,
                        None => Pixel { x: 0, y: 0 },
                    };
                    (
                        SelectionState::Dragging(SelectionDrag { anchor, current: anchor }),
                        SelectionAction::Wait,
                    )
                } else {
                    (SelectionState::Idle, SelectionAction::Wait)
                }
            },
            SelectionState::Dragging(drag) => {
                if button_down {
                    let moved = match cursor {
                        Some(position) => SelectionDrag { anchor: drag.anchor, current: position },
                        None => drag,
                    };
                    (SelectionState::Dragging(moved), SelectionAction::Preview(moved.rect()))
                } else {
                    let rect = drag.rect();
                    if rect.is_degenerate() {
                        (SelectionState::Idle, SelectionAction::Discard)
                    } else {
                        (SelectionState::Idle, SelectionAction::Commit(rect))
                    }
                }
            },
        }
    }
}

/// A gesture does not depend on its direction: dragging from one corner to
/// the opposite one ends in the same state and asks for the same action as
/// dragging the other way round.
pub proof fn lemma_gesture_direction_independent(a: Pixel, b: Pixel)
    ensures
        SelectionState::spec_gesture(a, b) == SelectionState::spec_gesture(b, a),
{
}

/// A gesture between two corners that differ on both axes commits the
/// normalized rectangle between them; any other gesture is discarded.
pub proof fn lemma_gesture_outcome(a: Pixel, b: Pixel)
    ensures
        SelectionState::spec_gesture(a, b).0 == SelectionState::Idle,
        a.x != b.x && a.y != b.y ==> SelectionState::spec_gesture(a, b).1
            == SelectionAction::Commit(PixelRect::spec_spanning(a, b)),
        a.x == b.x || a.y == b.y ==> SelectionState::spec_gesture(a, b).1
            == SelectionAction::Discard,
{
}

/// A new view is asked for only when a drag ends: the action is a commit
/// only if a drag was in progress and the button is up. The rectangle it
/// carries is the normalized rectangle of that drag, with strictly ordered
/// bounds on both axes.
pub proof fn lemma_commit_only_on_release(
    state: SelectionState,
    button_down: bool,
    cursor: Option<Pixel>,
)
    ensures
        state.spec_advance(button_down, cursor).1 is Commit ==> {
            &&& !button_down
            &&& state is Dragging
            &&& state.spec_advance(button_down, cursor).1->Commit_0 == state->Dragging_0.spec_rect()
            &&& state.spec_advance(button_down, cursor).1->Commit_0.x_min
                < state.spec_advance(button_down, cursor).1->Commit_0.x_max
            &&& state.spec_advance(button_down, cursor).1->Commit_0.y_min
                < state.spec_advance(button_down, cursor).1->Commit_0.y_max
        },
{
}

/// A frame in which the cursor position could not be resolved leaves a drag
/// in progress where it was.
pub proof fn lemma_unresolved_cursor_is_no_movement(drag: SelectionDrag)
    ensures
        SelectionState::Dragging(drag).spec_advance(true, None).0 == SelectionState::Dragging(drag),
{
}

/// The button state alone decides whether a drag is in progress after a
/// frame.
pub proof fn lemma_dragging_follows_button(
    state: SelectionState,
    button_down: bool,
    cursor: Option<Pixel>,
)
    ensures
        state.spec_advance(button_down, cursor).0 is Dragging <==> button_down,
{
}

} // verus!
