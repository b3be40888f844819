//! The overlay's reactions and frames.

use rs_sc::capture_window::{
    cancel_capture, close_capture, normalize_rect, start_capture, CaptureEvent, CaptureHandler,
    HandlerState, OverlayAction, PixelPosition, PointerButton, TouchStage, WindowInput,
    BORDER_COLOR,
};
use std::sync::Arc;

fn at(x: u32, y: u32) -> PixelPosition {
    PixelPosition { x, y }
}

fn names(actions: &[OverlayAction]) -> Vec<String> {
    actions
        .iter()
        .map(|a| match a {
            OverlayAction::OpenWindow { monitor_x, monitor_y, .. } => {
                format!("open {} {}", monitor_x, monitor_y)
            }
            OverlayAction::CloseWindow => "close".to_string(),
            OverlayAction::Send(CaptureEvent::Cancelled) => "cancelled".to_string(),
            OverlayAction::Send(CaptureEvent::Selection { x, y, w, h }) => {
                format!("selected {} {} {} {}", x, y, w, h)
            }
            OverlayAction::ResizeSurface { width, height } => format!("resize {} {}", width, height),
            OverlayAction::RequestRedraw => "redraw".to_string(),
            OverlayAction::Paint => "paint".to_string(),
            OverlayAction::Present => "present".to_string(),
            OverlayAction::ShowWindow => "show".to_string(),
        })
        .collect()
}

fn selecting(w: u32, h: u32) -> CaptureHandler {
    let mut handler = CaptureHandler::idle();
    let rgba = vec![200u8; (w * h * 4) as usize];
    let actions = handler.open_window(true, &rgba, w, h);
    assert_eq!(names(&actions), vec![format!("resize {} {}", w, h)]);
    handler.surface_resized();
    handler
}

fn is_idle(handler: &CaptureHandler) -> bool {
    matches!(handler.state, HandlerState::Idle)
}

fn left(pressed: bool) -> WindowInput {
    WindowInput::Mouse { button: PointerButton::Left, pressed }
}

#[test]
fn rectangle_is_the_same_from_either_corner() {
    assert_eq!(normalize_rect(at(3, 9), at(10, 2)), (3, 2, 7, 7));
    assert_eq!(normalize_rect(at(10, 2), at(3, 9)), (3, 2, 7, 7));
    assert_eq!(normalize_rect(at(5, 5), at(5, 5)), (5, 5, 0, 0));
    assert_eq!(normalize_rect(at(0, 0), at(u32::MAX, 1)), (0, 0, u32::MAX, 1));
}

#[test]
fn drag_closes_and_reports() {
    let mut h = selecting(40, 30);
    assert!(names(&h.window_event(WindowInput::CursorMoved { position: at(20, 5) })).is_empty());
    assert!(names(&h.window_event(left(true))).is_empty());
    let moved = h.window_event(WindowInput::CursorMoved { position: at(4, 25) });
    assert_eq!(names(&moved), vec!["redraw"]);
    assert_eq!(names(&h.window_event(left(false))), vec!["close", "selected 4 5 16 20"]);
    assert!(is_idle(&h));
    assert_eq!(names(&h.window_event(left(false))), vec!["close"]);
}

#[test]
fn small_drags_close_without_a_report() {
    for (x, y) in [(0, 0), (4, 20), (20, 4)] {
        let mut h = selecting(40, 30);
        h.window_event(left(true));
        h.window_event(WindowInput::CursorMoved { position: at(x, y) });
        assert_eq!(names(&h.window_event(left(false))), vec!["close"]);
        assert!(is_idle(&h));
    }
    let mut h = selecting(40, 30);
    h.window_event(left(true));
    h.window_event(WindowInput::CursorMoved { position: at(5, 5) });
    assert_eq!(names(&h.window_event(left(false))), vec!["close", "selected 0 0 5 5"]);
}

#[test]
fn release_without_a_press_closes() {
    let mut h = selecting(40, 30);
    assert_eq!(names(&h.window_event(left(false))), vec!["close"]);
}

#[test]
fn pen_draws_like_the_mouse() {
    let mut h = selecting(40, 30);
    let touch = |stage, x, y| WindowInput::Touch { stage, location: at(x, y) };
    assert!(names(&h.window_event(touch(TouchStage::Started, 2, 3))).is_empty());
    assert_eq!(names(&h.window_event(touch(TouchStage::Moved, 9, 9))), vec!["redraw"]);
    assert_eq!(
        names(&h.window_event(touch(TouchStage::Ended, 22, 13))),
        vec!["redraw", "close", "selected 2 3 20 10"]
    );
}

#[test]
fn every_way_to_cancel_reports_once() {
    for input in [
        WindowInput::Key { escape: true, pressed: true },
        WindowInput::Mouse { button: PointerButton::Right, pressed: true },
        WindowInput::Touch { stage: TouchStage::Cancelled, location: at(1, 1) },
        WindowInput::CloseRequested,
    ] {
        let mut h = selecting(8, 8);
        assert_eq!(names(&h.window_event(input)), vec!["cancelled", "close"]);
        assert!(is_idle(&h));
        assert_eq!(names(&h.window_event(input)), vec!["close"]);
    }
}

#[test]
fn other_inputs_change_nothing() {
    for input in [
        WindowInput::Key { escape: true, pressed: false },
        WindowInput::Key { escape: false, pressed: true },
        WindowInput::Mouse { button: PointerButton::Right, pressed: false },
        WindowInput::Mouse { button: PointerButton::Other, pressed: true },
        WindowInput::Resized { width: 0, height: 9 },
        WindowInput::Other,
    ] {
        let mut h = selecting(8, 8);
        assert!(h.window_event(input).is_empty());
        assert!(!is_idle(&h));
    }
}

#[test]
fn resizing_redraws() {
    let mut h = selecting(8, 8);
    let actions = h.window_event(WindowInput::Resized { width: 5, height: 6 });
    assert_eq!(names(&actions), vec!["resize 5 6", "redraw"]);
    assert_eq!(names(&h.window_event(WindowInput::RedrawRequested)), vec!["paint"]);
    let mut fresh = CaptureHandler::idle();
    fresh.open_window(true, &[0; 4], 1, 1);
    assert!(fresh.window_event(WindowInput::RedrawRequested).is_empty());
}

#[test]
fn commands_open_close_and_cancel() {
    let mut h = CaptureHandler::idle();
    let start = start_capture(Arc::new(vec![1, 2, 3, 4]), 1, 1, -5, 7);
    assert_eq!(names(&h.user_event(start)), vec!["close", "open -5 7"]);
    let mut h = selecting(8, 8);
    assert_eq!(names(&h.user_event(close_capture())), vec!["cancelled", "close"]);
    let mut h = selecting(8, 8);
    assert_eq!(names(&h.user_event(cancel_capture())), vec!["close"]);
    assert!(is_idle(&h));
}

#[test]
fn window_that_cannot_be_created_cancels() {
    let mut h = CaptureHandler::idle();
    assert_eq!(names(&h.open_window(false, &[0; 4], 1, 1)), vec!["cancelled"]);
    assert!(is_idle(&h));
    assert!(h.open_window(true, &[], 0, 0).is_empty());
}

#[test]
fn first_frame_is_painted_before_the_window_is_shown() {
    let mut h = selecting(3, 2);
    let mut buffer = vec![1u32; 6];
    assert_eq!(names(&h.prepaint(&mut buffer)), vec!["present", "show"]);
    assert_eq!(buffer, vec![0x006E_6E6E; 6]);
    let mut small = vec![1u32; 5];
    assert!(h.prepaint(&mut small).is_empty());
    assert_eq!(small, vec![1; 5]);
    assert_eq!(names(&h.paint(&mut buffer)), vec!["present"]);
}

#[test]
fn frame_shows_the_selection_in_its_border() {
    let mut h = selecting(12, 10);
    h.window_event(WindowInput::CursorMoved { position: at(2, 1) });
    h.window_event(left(true));
    h.window_event(WindowInput::CursorMoved { position: at(9, 8) });
    let mut buffer = vec![0u32; 120];
    assert_eq!(names(&h.paint(&mut buffer)), vec!["present", "show"]);
    for r in 0..10usize {
        for c in 0..12usize {
            let inside = (2..9).contains(&c) && (1..8).contains(&r);
            let deep = (4..7).contains(&c) && (3..6).contains(&r);
            let expected = if deep {
                0x00C8_C8C8
            } else if inside {
                BORDER_COLOR
            } else {
                0x006E_6E6E
            };
            assert_eq!(buffer[r * 12 + c], expected, "{} {}", r, c);
        }
    }
}

#[test]
fn frame_of_another_size_is_blacked_out() {
    let mut h = selecting(3, 2);
    let mut buffer = vec![9u32; 7];
    assert_eq!(names(&h.paint(&mut buffer)), vec!["present"]);
    assert_eq!(buffer, vec![0; 7]);
}

#[test]
fn paintable_buffers_match_the_picture() {
    let mut h = CaptureHandler::idle();
    h.open_window(true, &[0; 8], 2, 2);
    match &h.state {
        HandlerState::Selecting(s) => {
            assert!(!s.paintable(4));
            assert!(s.paintable(5));
            assert!(s.corner_in_range());
        }
        HandlerState::Idle => unreachable!(),
    }
}
