//! Where the windows go.

use vstd::prelude::*;

verus! {

/// The size of the result window.
pub const RESULT_WIDTH: i64 = 560;

pub const RESULT_HEIGHT: i64 = 360;

/// The size of the handwriting window.
pub const INK_WIDTH: i64 = 720;

pub const INK_HEIGHT: i64 = 480;

/// The distance that windows keep from what they are placed by.
pub const MARGIN: i64 = 24;

/// Where a window goes whose screen has no known size.
pub const FALLBACK_ORIGIN: i64 = 120;

/// `v` brought down to `high` and then up to `low`: where the two bounds cross, `low` wins.
pub open spec fn bounded(v: int, high: int, low: int) -> int {
    let capped = if v <= high {
        v
    } else {
        high
    };
    if capped >= low {
        capped
    } else {
        low
    }
}

fn bound(v: i64, high: i64, low: i64) -> (r: i64)
    ensures
        r == bounded(v as int, high as int, low as int),
{
    let capped: i64 = if v <= high {
        v
    } else {
        high
    };
    if capped >= low {
        capped
    } else {
        low
    }
}

/// One coordinate of the result window: a little past the cursor, but with all of the window on
/// a screen of the given extent.
pub open spec fn result_coordinate(cursor: int, screen: int, extent: int) -> int {
    if screen > 0 {
        bounded(cursor + MARGIN, screen - extent - MARGIN, MARGIN as int)
    } else {
        FALLBACK_ORIGIN as int
    }
}

/// The top left corner of the result window.
pub fn result_window_origin(cursor: (i32, i32), screen: (u32, u32)) -> (r: (i64, i64))
    ensures
        r.0 == result_coordinate(cursor.0 as int, screen.0 as int, RESULT_WIDTH as int),
        r.1 == result_coordinate(cursor.1 as int, screen.1 as int, RESULT_HEIGHT as int),
{
    let x: i64 = if screen.0 > 0 {
        bound(cursor.0 as i64 + MARGIN, screen.0 as i64 - RESULT_WIDTH - MARGIN, MARGIN)
    } else {
        FALLBACK_ORIGIN
    };
    let y: i64 = if screen.1 > 0 {
        bound(cursor.1 as i64 + MARGIN, screen.1 as i64 - RESULT_HEIGHT - MARGIN, MARGIN)
    } else {
        FALLBACK_ORIGIN
    };
    (x, y)
}

/// One coordinate of the handwriting window on a monitor that begins at `start`.
pub open spec fn ink_coordinate(start: int, monitor: int, extent: int) -> int {
    bounded(start + MARGIN, start + monitor - extent - MARGIN, start + MARGIN)
}

/// The top left corner of the handwriting window.
pub fn ink_window_origin(start: (i32, i32), monitor: (u32, u32)) -> (r: (i64, i64))
    ensures
        r.0 == ink_coordinate(start.0 as int, monitor.0 as int, INK_WIDTH as int),
        r.1 == ink_coordinate(start.1 as int, monitor.1 as int, INK_HEIGHT as int),
{
    let x: i64 = start.0 as i64;
    let y: i64 = start.1 as i64;
    (
        bound(x + MARGIN, x + monitor.0 as i64 - INK_WIDTH - MARGIN, x + MARGIN),
        bound(y + MARGIN, y + monitor.1 as i64 - INK_HEIGHT - MARGIN, y + MARGIN),
    )
}

/// On a screen that is large enough for the window and its margins, all of the result window is
/// on the screen, at least the margin away from its edges.
pub proof fn law_result_window_is_on_the_screen(cursor: int, screen: int, extent: int)
    requires
        extent > 0,
        screen >= extent + 2 * MARGIN,
    ensures
        MARGIN <= result_coordinate(cursor, screen, extent),
        result_coordinate(cursor, screen, extent) + extent + MARGIN <= screen,
{
}

/// Where there is room for it, the result window begins right by the cursor.
pub proof fn law_result_window_is_by_the_cursor(cursor: int, screen: int, extent: int)
    requires
        screen > 0,
        0 <= cursor,
        cursor + extent + 2 * MARGIN <= screen,
    ensures
        result_coordinate(cursor, screen, extent) == cursor + MARGIN,
{
}

/// The handwriting window always begins the margin into its monitor, however small that is.
pub proof fn law_ink_window_is_at_the_monitors_corner(start: int, monitor: int, extent: int)
    ensures
        ink_coordinate(start, monitor, extent) == start + MARGIN,
{
}

/// Which window comes forward when the program is launched a second time.
#[derive(Debug, Clone, Copy, PartialEq, Eq, Structural)]
pub enum Raise {
    /// The result window, which is open.
    OpenResult,
    /// The settings window, which is open.
    OpenSettings,
    /// The result window, which is hidden.
    HiddenResult,
}

/// Which window comes forward, given which are open.
pub open spec fn raised(result_open: bool, settings_open: bool) -> Raise {
    if result_open {
        Raise::OpenResult
    } else if settings_open {
        Raise::OpenSettings
    } else {
        Raise::HiddenResult
    }
}

/// An open window comes forward, the result window before the settings window; where neither is
/// open, the result window is shown.
pub fn raise_on_second_launch(result_open: bool, settings_open: bool) -> (r: Raise)
    ensures
        r == if result_open {
            Raise::OpenResult
        } else if settings_open {
            Raise::OpenSettings
        } else {
            Raise::HiddenResult
        },
        r == raised(result_open, settings_open),
{
    if result_open {
        Raise::OpenResult
    } else if settings_open {
        Raise::OpenSettings
    } else {
        Raise::HiddenResult
    }
}

/// A window is raised as open only where it is open, a hidden one only where none is, and the
/// settings window only where the result window is not open.
pub proof fn law_second_launch_raises_what_is_open(result_open: bool, settings_open: bool)
    ensures
        raised(result_open, settings_open) == Raise::OpenResult <==> result_open,
        raised(result_open, settings_open) == Raise::OpenSettings <==> settings_open
            && !result_open,
        raised(result_open, settings_open) == Raise::HiddenResult <==> !result_open
            && !settings_open,
{
}

/// The result window, 560 by 360, begins 24 pixels past the cursor each way, but no nearer than 24
/// pixels to the far edge of the screen where that leaves room, and never nearer than 24 pixels to
/// the near edge. On a screen of unknown size it begins at 120.
pub proof fn law_result_window_keeps_its_margins(cursor: int, screen: int)
    ensures
        ({
            let x = result_coordinate(cursor, screen, RESULT_WIDTH as int);
            let y = result_coordinate(cursor, screen, RESULT_HEIGHT as int);
            &&& screen <= 0 ==> x == 120 && y == 120
            &&& screen > 0 ==> x >= 24 && y >= 24
            &&& screen > 0 && (cursor < 0 || screen < 608) ==> x == 24
            &&& screen > 0 && (cursor < 0 || screen < 408) ==> y == 24
            &&& cursor >= 0 && screen >= 608 && cursor + 608 <= screen ==> x == cursor + 24
            &&& cursor >= 0 && screen >= 408 && cursor + 408 <= screen ==> y == cursor + 24
            &&& cursor >= 0 && screen >= 608 && cursor + 608 > screen ==> x == screen - 584
            &&& cursor >= 0 && screen >= 408 && cursor + 408 > screen ==> y == screen - 384
        }),
{
}

/// The handwriting window begins 24 pixels into its monitor each way.
pub proof fn law_ink_window_keeps_its_margin(start: int, monitor: int)
    ensures
        ink_coordinate(start, monitor, INK_WIDTH as int) == start + 24,
        ink_coordinate(start, monitor, INK_HEIGHT as int) == start + 24,
        INK_WIDTH == 720,
        INK_HEIGHT == 480,
        RESULT_WIDTH == 560,
        RESULT_HEIGHT == 360,
{
}

} // verus!
