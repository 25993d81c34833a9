//! The frame update: what one frame of the explorer decides from the sampled
//! input and the state carried over from the frame before.
//!
//! The update is a function from state and input to next state and outcome.
//! The driver around it samples the input, applies the commands to the view,
//! does what the outcome says of the display, and reports a completed
//! rendering back with [`Session::rendered`].

use crate::budget::{
    decrease, increase, spec_decrease, spec_increase, spec_step_size, step_size, DEFAULT_BUDGET,
};
use crate::pixel::{lemma_spanning_symmetric, Pixel, PixelRect};
use crate::selection::{SelectionAction, SelectionDrag, SelectionState};
use crate::transform::{selection_ratios, spec_selection_ratios, ViewRatios};
use vstd::prelude::*;

verus! {

/// The input sampled for one frame. Keys are level-triggered: a key that is
/// held down counts in every frame.
#[derive(Clone, Copy, Debug)]
pub struct Input {
    /// The width of the display surface, in pixels.
    pub width: usize,
    /// The height of the display surface, in pixels.
    pub height: usize,
    pub reset: bool,
    pub increase: bool,
    pub decrease: bool,
    /// The modifier that turns a single step of the budget into a batch step.
    pub fast: bool,
    pub zoom_in: bool,
    pub zoom_out: bool,
    pub pan_left: bool,
    pub pan_right: bool,
    pub pan_up: bool,
    pub pan_down: bool,
    pub mouse_down: bool,
    /// The cursor position, or `None` where it could not be resolved.
    pub cursor: Option<Pixel>,
}

/// The state carried from frame to frame.
#[derive(Clone, Copy, Debug, PartialEq, Eq, Structural)]
pub struct Session {
    /// The last rendering does not show the current view, budget or size.
    pub dirty: bool,
    /// The width of the last rendering.
    pub width: usize,
    /// The height of the last rendering.
    pub height: usize,
    pub selection: SelectionState,
    pub budget: usize,
}

/// A change to the view, to be applied by the driver.
#[derive(Clone, Copy, Debug, PartialEq, Eq, Structural)]
pub enum ViewCommand {
    /// Replace the view by the part of it that the ratios describe.
    Select(ViewRatios),
    /// Restore the default view.
    Reset,
    ZoomIn,
    ZoomOut,
    PanLeft,
    PanRight,
    PanUp,
    PanDown,
}

/// What the frame shows.
#[derive(Clone, Copy, Debug, PartialEq, Eq, Structural)]
pub enum Display {
    /// Show what the frame before showed.
    Unchanged,
    /// Render the view anew, at the size of the input.
    Render,
    /// Show the last rendering with the outline of this rectangle over it.
    Preview(PixelRect),
    /// Show the last rendering without any outline.
    Restore,
}

/// What the driver has to do after a frame update.
#[derive(Debug)]
pub struct FrameOutcome {
    /// The changes to the view, in the order in which they apply.
    pub commands: Vec<ViewCommand>,
    pub display: Display,
    /// The budget is to be reported anew in the status text.
    pub report_budget: bool,
}

/// The command, if any, that the selection asks for.
pub open spec fn spec_selection_commands(
    action: SelectionAction,
    width: usize,
    height: usize,
) -> Seq<ViewCommand> {
    match action {
        SelectionAction::Commit(rect) => seq![
            ViewCommand::Select(spec_selection_ratios(rect, width, height)),
        ],
        _ => Seq::empty(),
    }
}

/// The command of a key, if the key is down.
pub open spec fn spec_key_commands(down: bool, command: ViewCommand) -> Seq<ViewCommand> {
    if down { seq![command] } else { Seq::empty() }
}

/// Appends the command of a key to the list if the key is down.
fn push_when(commands: &mut Vec<ViewCommand>, down: bool, command: ViewCommand)
    ensures
        final(commands)@ == old(commands)@ + spec_key_commands(down, command),
{
    if down {
        commands.push(command);
    }
    assert(commands@ =~= old(commands)@ + spec_key_commands(down, command));
}

impl Input {
    /// A key that changes the view or the budget is down.
    pub open spec fn any_key(self) -> bool {
        self.reset || self.increase || self.decrease || self.zoom_in || self.zoom_out
            || self.pan_left || self.pan_right || self.pan_up || self.pan_down
    }
}

impl Session {
    /// The budget is at least 1.
    pub open spec fn well_formed(self) -> bool {
        self.budget >= 1
    }

    /// The surface no longer has the size of the last rendering.
    pub open spec fn spec_resized(self, input: Input) -> bool {
        self.width != input.width || self.height != input.height
    }

    /// What the selection machine asks for in this frame.
    pub open spec fn spec_action(self, input: Input) -> SelectionAction {
        self.selection.spec_advance(input.mouse_down, input.cursor).1
    }

    /// The changes to the view in this frame: first the selection, then the
    /// keys in the order reset, zoom in, zoom out, left, right, up, down.
    pub open spec fn spec_commands(self, input: Input) -> Seq<ViewCommand> {
        spec_selection_commands(self.spec_action(input), input.width, input.height)
            + spec_key_commands(input.reset, ViewCommand::Reset) + spec_key_commands(
            input.zoom_in,
            ViewCommand::ZoomIn,
        ) + spec_key_commands(input.zoom_out, ViewCommand::ZoomOut) + spec_key_commands(
            input.pan_left,
            ViewCommand::PanLeft,
        ) + spec_key_commands(input.pan_right, ViewCommand::PanRight) + spec_key_commands(
            input.pan_up,
            ViewCommand::PanUp,
        ) + spec_key_commands(input.pan_down, ViewCommand::PanDown)
    }

    /// The budget after this frame: raised first, then lowered, each if its
    /// key is down.
    pub open spec fn spec_budget(self, input: Input) -> usize {
        let step = spec_step_size(input.fast);
        let raised = if input.increase { spec_increase(self.budget, step) } else { self.budget };
        if input.decrease { spec_decrease(raised, step) } else { raised }
    }

    /// Whether the rendering is stale after this frame: it was stale before,
    /// the surface was resized, a selection was committed, or a key that
    /// changes the view or the budget is down.
    pub open spec fn spec_dirty(self, input: Input) -> bool {
        self.dirty || self.spec_resized(input) || self.spec_action(input) is Commit
            || input.any_key()
    }

    /// The state after this frame.
    pub open spec fn spec_next(self, input: Input) -> Session {
        Session {
            dirty: self.spec_dirty(input),
            width: self.width,
            height: self.height,
            selection: self.selection.spec_advance(input.mouse_down, input.cursor).0,
            budget: self.spec_budget(input),
        }
    }

    /// What this frame shows: a new rendering if the old one is stale,
    /// otherwise what the selection asks for.
    pub open spec fn spec_display(self, input: Input) -> Display {
        if self.spec_dirty(input) {
            Display::Render
        } else {
            match self.spec_action(input) {
                SelectionAction::Preview(rect) => Display::Preview(rect),
                SelectionAction::Discard => Display::Restore,
                _ => Display::Unchanged,
            }
        }
    }

    /// The state after a rendering of the given size was completed.
    pub open spec fn spec_rendered(self, width: usize, height: usize) -> Session {
        Session { dirty: false, width, height, selection: self.selection, budget: self.budget }
    }

    /// The state before the first frame: nothing was rendered yet, no drag is
    /// in progress and the budget is the default.
    pub fn new() -> (session: Session)
        ensures
            session == (Session {
                dirty: true,
                width: 0,
                height: 0,
                selection: SelectionState::Idle,
                budget: DEFAULT_BUDGET,
            }),
            session.well_formed(),
    {
        Session {
            dirty: true,
            width: 0,
            height: 0,
            selection: SelectionState::Idle,
            budget: DEFAULT_BUDGET,
        }
    }

    /// Advances the session by one frame and says what the driver has to do.
    pub fn update(&mut self, input: &Input) -> (outcome: FrameOutcome)
        ensures
            *final(self) == old(self).spec_next(*input),
            outcome.commands@ == old(self).spec_commands(*input),
            outcome.display == old(self).spec_display(*input),
            outcome.report_budget == (input.increase || input.decrease),
    {
        let mut commands: Vec<ViewCommand> = Vec::new();
        let mut dirty = self.dirty || self.width != input.width || self.height != input.height;
        let (selection, action) = self.selection.advance(input.mouse_down, input.cursor);
        if let SelectionAction::Commit(rect) = action {
            commands.push(ViewCommand::Select(selection_ratios(&rect, input.width, input.height)));
            dirty = true;
        }
        assert(commands@ =~= spec_selection_commands(action, input.width, input.height));
        push_when(&mut commands, input.reset, ViewCommand::Reset);
        push_when(&mut commands, input.zoom_in, ViewCommand::ZoomIn);
        push_when(&mut commands, input.zoom_out, ViewCommand::ZoomOut);
        push_when(&mut commands, input.pan_left, ViewCommand::PanLeft);
        push_when(&mut commands, input.pan_right, ViewCommand::PanRight);
        push_when(&mut commands, input.pan_up, ViewCommand::PanUp);
        push_when(&mut commands, input.pan_down, ViewCommand::PanDown);
        let step: usize = step_size(input.fast);
        let mut budget: usize = self.budget;
        if input.increase {
            budget = increase(budget, step);
        }
        if input.decrease {
            budget = decrease(budget, step);
        }
        let any_key = input.reset || input.increase || input.decrease || input.zoom_in
            || input.zoom_out || input.pan_left || input.pan_right || input.pan_up
            || input.pan_down;
        dirty = dirty || any_key;
        let display = if dirty {
            Display::Render
        } else {
            match action {
                SelectionAction::Preview(rect) => Display::Preview(rect),
                SelectionAction::Discard => Display::Restore,
                _ => Display::Unchanged,
            }
        };
        self.dirty = dirty;
        self.selection = selection;
        self.budget = budget;
        FrameOutcome { commands, display, report_budget: input.increase || input.decrease }
    }

    /// Records that the view was rendered at the given size: the rendering
    /// is no longer stale.
    pub fn rendered(&mut self, width: usize, height: usize)
        ensures
            *final(self) == old(self).spec_rendered(width, height),
    {
        self.dirty = false;
        self.width = width;
        self.height = height;
    }
}

/// Every change to the view makes the rendering stale: a frame with at least
/// one command leaves the session dirty and shows a new rendering.
pub proof fn lemma_commands_make_dirty(session: Session, input: Input)
    requires
        session.spec_commands(input).len() > 0,
    ensures
        session.spec_next(input).dirty,
        session.spec_display(input) == Display::Render,
{
}

/// A change of the budget makes the rendering stale.
pub proof fn lemma_budget_change_makes_dirty(session: Session, input: Input)
    requires
        session.spec_next(input).budget != session.budget,
    ensures
        session.spec_next(input).dirty,
{
}

/// A frame update never clears the dirty flag; only a completed rendering
/// does.
pub proof fn lemma_dirty_until_rendered(session: Session, input: Input, width: usize, height: usize)
    ensures
        session.dirty ==> session.spec_next(input).dirty,
        !session.spec_rendered(width, height).dirty,
        session.spec_next(input).dirty <==> session.spec_display(input) == Display::Render,
{
}

/// The selection changes the view only when a drag ends: a `Select` command
/// is the first command of its frame, and it occurs only in a frame that
/// found a drag in progress and the button up. It then carries the ratios of
/// the normalized rectangle of that drag.
pub proof fn lemma_select_only_on_release(session: Session, input: Input, i: int)
    requires
        0 <= i < session.spec_commands(input).len(),
        session.spec_commands(input)[i] is Select,
    ensures
        i == 0,
        !input.mouse_down,
        session.selection is Dragging,
        !session.selection->Dragging_0.spec_rect().spec_is_degenerate(),
        session.spec_commands(input)[i] == ViewCommand::Select(
            spec_selection_ratios(
                session.selection->Dragging_0.spec_rect(),
                input.width,
                input.height,
            ),
        ),
{
    let selected = spec_selection_commands(session.spec_action(input), input.width, input.height);
    let c1 = selected + spec_key_commands(input.reset, ViewCommand::Reset);
    let c2 = c1 + spec_key_commands(input.zoom_in, ViewCommand::ZoomIn);
    let c3 = c2 + spec_key_commands(input.zoom_out, ViewCommand::ZoomOut);
    let c4 = c3 + spec_key_commands(input.pan_left, ViewCommand::PanLeft);
    let c5 = c4 + spec_key_commands(input.pan_right, ViewCommand::PanRight);
    let c6 = c5 + spec_key_commands(input.pan_up, ViewCommand::PanUp);
    let c7 = c6 + spec_key_commands(input.pan_down, ViewCommand::PanDown);
    assert(keys_from(selected, selected));
    lemma_key_is_no_select(selected, selected, input.reset, ViewCommand::Reset);
    lemma_key_is_no_select(c1, selected, input.zoom_in, ViewCommand::ZoomIn);
    lemma_key_is_no_select(c2, selected, input.zoom_out, ViewCommand::ZoomOut);
    lemma_key_is_no_select(c3, selected, input.pan_left, ViewCommand::PanLeft);
    lemma_key_is_no_select(c4, selected, input.pan_right, ViewCommand::PanRight);
    lemma_key_is_no_select(c5, selected, input.pan_up, ViewCommand::PanUp);
    lemma_key_is_no_select(c6, selected, input.pan_down, ViewCommand::PanDown);
    assert(session.spec_commands(input) == c7);
    assert(keys_from(c7, selected));
    assert(i < selected.len());
    assert(c7[i] == selected[i]);
}

/// Whether `commands` starts with `head` and holds no `Select` after it.
spec fn keys_from(commands: Seq<ViewCommand>, head: Seq<ViewCommand>) -> bool {
    &&& head.len() <= commands.len()
    &&& forall|k: int| 0 <= k < head.len() ==> commands[k] == head[k]
    &&& forall|k: int| head.len() <= k < commands.len() ==> !(commands[k] is Select)
}

/// Appending the command of a key adds no `Select` and keeps what came
/// before.
proof fn lemma_key_is_no_select(
    commands: Seq<ViewCommand>,
    head: Seq<ViewCommand>,
    down: bool,
    command: ViewCommand,
)
    requires
        !(command is Select),
        keys_from(commands, head),
    ensures
        keys_from(commands + spec_key_commands(down, command), head),
{
}

/// While the button is held the view is left alone by the selection: a
/// frame with the button down, no key down, the size unchanged and a clean
/// rendering issues no command and leaves the rendering clean. If a drag was
/// in progress it shows the preview of that drag.
pub proof fn lemma_drag_leaves_view_alone(session: Session, input: Input)
    requires
        input.mouse_down,
        !input.any_key(),
        !session.dirty,
        !session.spec_resized(input),
    ensures
        session.spec_commands(input) == Seq::<ViewCommand>::empty(),
        !session.spec_next(input).dirty,
        session.spec_next(input).budget == session.budget,
        session.selection is Dragging ==> session.spec_display(input) == Display::Preview(
            session.selection->Dragging_0.spec_moved(input.cursor).spec_rect(),
        ),
{
    assert(session.spec_commands(input) =~= Seq::<ViewCommand>::empty());
}

/// A frame without any input leaves a clean, idle session exactly as it was.
pub proof fn lemma_quiet_frame(session: Session, input: Input)
    requires
        !input.mouse_down,
        !input.any_key(),
        !session.dirty,
        !session.spec_resized(input),
        session.selection is Idle,
    ensures
        session.spec_next(input) == session,
        session.spec_commands(input) == Seq::<ViewCommand>::empty(),
        session.spec_display(input) == Display::Unchanged,
{
    assert(session.spec_commands(input) =~= Seq::<ViewCommand>::empty());
}

/// The input of a frame in which only the mouse is used.
pub open spec fn spec_mouse_input(
    width: usize,
    height: usize,
    mouse_down: bool,
    cursor: Option<Pixel>,
) -> Input {
    Input {
        width,
        height,
        reset: false,
        increase: false,
        decrease: false,
        fast: false,
        zoom_in: false,
        zoom_out: false,
        pan_left: false,
        pan_right: false,
        pan_up: false,
        pan_down: false,
        mouse_down,
        cursor,
    }
}

/// The session and the commands at the end of a whole selection: the button
/// goes down at `from`, the cursor is dragged to `to`, and the button is
/// released, in three frames of the same size.
pub open spec fn spec_select(session: Session, width: usize, height: usize, from: Pixel, to: Pixel) -> (
    Session,
    Seq<ViewCommand>,
) {
    let pressed = session.spec_next(spec_mouse_input(width, height, true, Some(from)));
    let dragged = pressed.spec_next(spec_mouse_input(width, height, true, Some(to)));
    let release = spec_mouse_input(width, height, false, Some(to));
    (dragged.spec_next(release), dragged.spec_commands(release))
}

/// A selection does not depend on the direction of the drag: dragging from
/// `a` to `b` and releasing leaves the same session and issues the same
/// commands, and so leads to the same view, as dragging from `b` to `a`.
pub proof fn lemma_selection_direction_independent(
    session: Session,
    width: usize,
    height: usize,
    a: Pixel,
    b: Pixel,
)
    requires
        session.selection is Idle,
    ensures
        spec_select(session, width, height, a, b) == spec_select(session, width, height, b, a),
{
    lemma_spanning_symmetric(a, b);
}

/// A selection between two corners that differ on both axes issues exactly
/// one command: the selection of the normalized rectangle between them. Any
/// other selection issues none.
pub proof fn lemma_selection_outcome(
    session: Session,
    width: usize,
    height: usize,
    a: Pixel,
    b: Pixel,
)
    requires
        session.selection is Idle,
    ensures
        a.x != b.x && a.y != b.y ==> spec_select(session, width, height, a, b).1 == seq![
            ViewCommand::Select(
                spec_selection_ratios(PixelRect::spec_spanning(a, b), width, height),
            ),
        ],
        a.x == b.x || a.y == b.y ==> spec_select(session, width, height, a, b).1 == Seq::<
            ViewCommand,
        >::empty(),
{
    let pressed = session.spec_next(spec_mouse_input(width, height, true, Some(a)));
    let dragged = pressed.spec_next(spec_mouse_input(width, height, true, Some(b)));
    let release = spec_mouse_input(width, height, false, Some(b));
    let rect = PixelRect::spec_spanning(a, b);
    assert(dragged.selection == SelectionState::Dragging(SelectionDrag { anchor: a, current: b }));
    if a.x != b.x && a.y != b.y {
        assert(dragged.spec_action(release) == SelectionAction::Commit(rect));
        assert(dragged.spec_commands(release) =~= seq![
            ViewCommand::Select(spec_selection_ratios(rect, width, height)),
        ]);
    } else {
        assert(dragged.spec_action(release) == SelectionAction::Discard);
        assert(dragged.spec_commands(release) =~= Seq::<ViewCommand>::empty());
    }
}

/// The budget of a well-formed session stays at least 1.
pub proof fn lemma_update_keeps_well_formed(session: Session, input: Input)
    requires
        session.well_formed(),
    ensures
        session.spec_next(input).well_formed(),
{
}

} // verus!
