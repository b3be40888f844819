//! Window positions.

use rs_sc::placement::{ink_window_origin, raise_on_second_launch, result_window_origin, Raise};

#[test]
fn result_window_is_by_the_cursor() {
    assert_eq!(result_window_origin((200, 200), (1920, 1080)), (224, 224));
    assert_eq!(result_window_origin((0, 0), (1920, 1080)), (24, 24));
}

#[test]
fn result_window_stays_on_the_screen() {
    assert_eq!(result_window_origin((1900, 1070), (1920, 1080)), (1336, 696));
    assert_eq!(result_window_origin((-500, -9), (1920, 1080)), (24, 24));
    assert_eq!(result_window_origin((300, 300), (100, 100)), (24, 24));
    assert_eq!(result_window_origin((300, 300), (0, 0)), (120, 120));
    assert_eq!(
        result_window_origin((i32::MAX, i32::MIN), (u32::MAX, u32::MAX)),
        (2147483671, 24)
    );
}

#[test]
fn ink_window_is_at_the_monitors_corner() {
    for size in [(1920, 1080), (100, 100), (0, 0)] {
        assert_eq!(ink_window_origin((-1920, 50), size), (-1896, 74));
    }
}

#[test]
fn second_launch_raises_an_open_window() {
    assert_eq!(raise_on_second_launch(true, true), Raise::OpenResult);
    assert_eq!(raise_on_second_launch(false, true), Raise::OpenSettings);
    assert_eq!(raise_on_second_launch(false, false), Raise::HiddenResult);
}
