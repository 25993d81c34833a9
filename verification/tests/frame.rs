use mandelbrot::frame::{Display, Input, Session, ViewCommand};
use mandelbrot::pixel::{Pixel, PixelRect};
use mandelbrot::selection::{SelectionDrag, SelectionState};
use mandelbrot::transform::{Ratio, ViewRatios};

fn quiet(width: usize, height: usize) -> Input {
    Input {
        width,
        height,
        reset: false,
        increase: false,
        decrease: false,
        fast: false,
        zoom_in: false,
        zoom_out: false,
        pan_left: false,
        pan_right: false,
        pan_up: false,
        pan_down: false,
        mouse_down: false,
        cursor: None,
    }
}

fn clean(width: usize, height: usize) -> Session {
    let mut session = Session::new();
    session.rendered(width, height);
    session
}

#[test]
fn new_session_is_dirty_and_idle() {
    let session = Session::new();
    assert_eq!(
        session,
        Session {
            dirty: true,
            width: 0,
            height: 0,
            selection: SelectionState::Idle,
            budget: 100,
        }
    );
}

#[test]
fn first_frame_renders() {
    let mut session = Session::new();
    let outcome = session.update(&quiet(640, 360));
    assert_eq!(outcome.display, Display::Render);
    assert!(outcome.commands.is_empty());
    assert!(!outcome.report_budget);
    assert!(session.dirty);
}

#[test]
fn rendered_clears_the_dirty_flag_and_records_the_size() {
    let mut session = Session::new();
    session.update(&quiet(640, 360));
    session.rendered(640, 360);
    assert_eq!(
        session,
        Session {
            dirty: false,
            width: 640,
            height: 360,
            selection: SelectionState::Idle,
            budget: 100,
        }
    );
}

#[test]
fn quiet_frame_changes_nothing() {
    let mut session = clean(640, 360);
    let before = session;
    let outcome = session.update(&quiet(640, 360));
    assert_eq!(session, before);
    assert_eq!(outcome.display, Display::Unchanged);
    assert!(outcome.commands.is_empty());
    assert!(!outcome.report_budget);
}

#[test]
fn resize_makes_the_rendering_stale() {
    let mut session = clean(640, 360);
    let outcome = session.update(&quiet(800, 360));
    assert_eq!(outcome.display, Display::Render);
    assert!(session.dirty);
    assert_eq!((session.width, session.height), (640, 360));
    let mut other = clean(640, 360);
    assert_eq!(other.update(&quiet(640, 400)).display, Display::Render);
}

#[test]
fn update_never_clears_the_dirty_flag() {
    let mut session = clean(640, 360);
    session.update(&quiet(100, 100));
    assert!(session.dirty);
    let outcome = session.update(&quiet(640, 360));
    assert!(session.dirty);
    assert_eq!(outcome.display, Display::Render);
}

#[test]
fn each_key_issues_its_command() {
    let cases: [(fn(&mut Input), ViewCommand); 7] = [
        (|i| i.reset = true, ViewCommand::Reset),
        (|i| i.zoom_in = true, ViewCommand::ZoomIn),
        (|i| i.zoom_out = true, ViewCommand::ZoomOut),
        (|i| i.pan_left = true, ViewCommand::PanLeft),
        (|i| i.pan_right = true, ViewCommand::PanRight),
        (|i| i.pan_up = true, ViewCommand::PanUp),
        (|i| i.pan_down = true, ViewCommand::PanDown),
    ];
    for (press, command) in cases {
        let mut session = clean(640, 360);
        let mut input = quiet(640, 360);
        press(&mut input);
        let outcome = session.update(&input);
        assert_eq!(outcome.commands, vec![command]);
        assert_eq!(outcome.display, Display::Render);
        assert!(session.dirty);
        assert!(!outcome.report_budget);
        assert_eq!(session.budget, 100);
    }
}

#[test]
fn keys_apply_in_a_fixed_order() {
    let mut session = clean(640, 360);
    let mut input = quiet(640, 360);
    input.pan_down = true;
    input.pan_up = true;
    input.pan_right = true;
    input.pan_left = true;
    input.zoom_out = true;
    input.zoom_in = true;
    input.reset = true;
    let outcome = session.update(&input);
    assert_eq!(
        outcome.commands,
        vec![
            ViewCommand::Reset,
            ViewCommand::ZoomIn,
            ViewCommand::ZoomOut,
            ViewCommand::PanLeft,
            ViewCommand::PanRight,
            ViewCommand::PanUp,
            ViewCommand::PanDown,
        ]
    );
}

#[test]
fn held_key_repeats_every_frame() {
    let mut session = clean(640, 360);
    let mut input = quiet(640, 360);
    input.zoom_in = true;
    for _ in 0..3 {
        let outcome = session.update(&input);
        assert_eq!(outcome.commands, vec![ViewCommand::ZoomIn]);
        assert_eq!(outcome.display, Display::Render);
        session.rendered(640, 360);
    }
}

#[test]
fn increase_key_raises_the_budget() {
    let mut session = clean(640, 360);
    let mut input = quiet(640, 360);
    input.increase = true;
    let outcome = session.update(&input);
    assert_eq!(session.budget, 101);
    assert!(session.dirty);
    assert!(outcome.report_budget);
    assert!(outcome.commands.is_empty());
    assert_eq!(outcome.display, Display::Render);
    input.fast = true;
    session.update(&input);
    assert_eq!(session.budget, 111);
}

#[test]
fn decrease_key_lowers_the_budget() {
    let mut session = clean(640, 360);
    let mut input = quiet(640, 360);
    input.decrease = true;
    let outcome = session.update(&input);
    assert_eq!(session.budget, 99);
    assert!(outcome.report_budget);
    input.fast = true;
    session.update(&input);
    assert_eq!(session.budget, 89);
}

#[test]
fn budget_saturates_at_both_ends() {
    let mut low = clean(640, 360);
    low.budget = 10;
    let mut input = quiet(640, 360);
    input.decrease = true;
    input.fast = true;
    let outcome = low.update(&input);
    assert_eq!(low.budget, 10);
    assert!(outcome.report_budget);
    assert!(low.dirty);
    let mut high = clean(640, 360);
    high.budget = usize::MAX - 3;
    let mut raise = quiet(640, 360);
    raise.increase = true;
    raise.fast = true;
    high.update(&raise);
    assert_eq!(high.budget, usize::MAX - 3);
}

#[test]
fn increase_applies_before_decrease() {
    let mut session = clean(640, 360);
    session.budget = 1;
    let mut input = quiet(640, 360);
    input.increase = true;
    input.decrease = true;
    session.update(&input);
    assert_eq!(session.budget, 1);
    session.budget = usize::MAX;
    session.update(&input);
    assert_eq!(session.budget, usize::MAX - 1);
}

#[test]
fn press_starts_a_drag_without_touching_the_view() {
    let mut session = clean(640, 360);
    let mut input = quiet(640, 360);
    input.mouse_down = true;
    input.cursor = Some(Pixel { x: 50, y: 50 });
    let outcome = session.update(&input);
    assert!(outcome.commands.is_empty());
    assert_eq!(outcome.display, Display::Unchanged);
    assert!(!session.dirty);
    assert_eq!(
        session.selection,
        SelectionState::Dragging(SelectionDrag {
            anchor: Pixel { x: 50, y: 50 },
            current: Pixel { x: 50, y: 50 },
        })
    );
}

#[test]
fn drag_previews_without_touching_the_view() {
    let mut session = clean(640, 360);
    let mut input = quiet(640, 360);
    input.mouse_down = true;
    input.cursor = Some(Pixel { x: 50, y: 50 });
    session.update(&input);
    input.cursor = Some(Pixel { x: 10, y: 20 });
    let outcome = session.update(&input);
    assert!(outcome.commands.is_empty());
    assert_eq!(
        outcome.display,
        Display::Preview(PixelRect { x_min: 10, x_max: 50, y_min: 20, y_max: 50 })
    );
    assert!(!session.dirty);
}

#[test]
fn release_selects_the_dragged_region() {
    let mut session = clean(100, 100);
    let mut input = quiet(100, 100);
    input.mouse_down = true;
    input.cursor = Some(Pixel { x: 50, y: 50 });
    session.update(&input);
    input.cursor = Some(Pixel { x: 10, y: 10 });
    session.update(&input);
    input.mouse_down = false;
    let outcome = session.update(&input);
    assert_eq!(
        outcome.commands,
        vec![ViewCommand::Select(ViewRatios {
            left: Ratio { numer: 10, denom: 100 },
            right: Ratio { numer: 50, denom: 100 },
            bottom: Ratio { numer: 50, denom: 100 },
            top: Ratio { numer: 90, denom: 100 },
        })]
    );
    assert_eq!(outcome.display, Display::Render);
    assert!(session.dirty);
    assert_eq!(session.selection, SelectionState::Idle);
}

#[test]
fn release_is_direction_independent() {
    let run = |from: Pixel, to: Pixel| {
        let mut session = clean(640, 360);
        let mut input = quiet(640, 360);
        input.mouse_down = true;
        input.cursor = Some(from);
        session.update(&input);
        input.cursor = Some(to);
        session.update(&input);
        input.mouse_down = false;
        let outcome = session.update(&input);
        (session, outcome.commands, outcome.display)
    };
    let backward = run(Pixel { x: 50, y: 50 }, Pixel { x: 10, y: 10 });
    let forward = run(Pixel { x: 10, y: 10 }, Pixel { x: 50, y: 50 });
    assert_eq!(backward, forward);
    assert_eq!(forward.1.len(), 1);
}

#[test]
fn click_without_drag_is_rejected() {
    let mut session = clean(640, 360);
    let mut input = quiet(640, 360);
    input.mouse_down = true;
    input.cursor = Some(Pixel { x: 33, y: 44 });
    session.update(&input);
    input.mouse_down = false;
    let outcome = session.update(&input);
    assert!(outcome.commands.is_empty());
    assert_eq!(outcome.display, Display::Restore);
    assert!(!session.dirty);
    assert_eq!(session.selection, SelectionState::Idle);
}

#[test]
fn selection_comes_before_the_keys() {
    let mut session = clean(100, 100);
    let mut input = quiet(100, 100);
    input.mouse_down = true;
    input.cursor = Some(Pixel { x: 0, y: 0 });
    session.update(&input);
    input.cursor = Some(Pixel { x: 20, y: 40 });
    session.update(&input);
    session.rendered(100, 100);
    input.mouse_down = false;
    input.zoom_in = true;
    let outcome = session.update(&input);
    assert_eq!(outcome.commands.len(), 2);
    assert!(matches!(outcome.commands[0], ViewCommand::Select(_)));
    assert_eq!(outcome.commands[1], ViewCommand::ZoomIn);
}

#[test]
fn stale_rendering_wins_over_the_preview() {
    let mut session = clean(640, 360);
    let mut input = quiet(640, 360);
    input.mouse_down = true;
    input.cursor = Some(Pixel { x: 5, y: 5 });
    session.update(&input);
    input.cursor = Some(Pixel { x: 9, y: 9 });
    input.pan_left = true;
    let outcome = session.update(&input);
    assert_eq!(outcome.display, Display::Render);
    assert_eq!(outcome.commands, vec![ViewCommand::PanLeft]);
}
