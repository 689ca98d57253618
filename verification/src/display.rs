//! Where the window is shown.

use vstd::prelude::*;

use crate::config::DisplayTarget;

verus! {

/// The part of a display that windows may cover, in pixels.
#[derive(Clone, Copy, PartialEq, Eq, Structural, Debug)]
pub struct WorkArea {
    pub left: i32,
    pub top: i32,
    pub right: i32,
    pub bottom: i32,
}

/// A position, counted in half pixels across and in thirds of a pixel down: so
/// centering is exact.
#[derive(Clone, Copy, PartialEq, Eq, Structural, Debug)]
pub struct Position {
    pub x_halves: i64,
    pub y_thirds: i64,
}

/// Centered across, and a third of the free height from the top.
pub open spec fn centered(work: WorkArea, width: u32, height: u32) -> Position {
    Position {
        x_halves: (2 * work.left + (work.right - work.left - width)) as i64,
        y_thirds: (3 * work.top + (work.bottom - work.top - height)) as i64,
    }
}

/// The position of a window in a work area.
pub fn centered_position(work: WorkArea, width: u32, height: u32) -> (r: Position)
    ensures
        r == centered(work, width, height),
        r.x_halves == 2 * work.left + (work.right - work.left - width),
        r.y_thirds == 3 * work.top + (work.bottom - work.top - height),
{
    Position {
        x_halves: 2 * work.left as i64 + (work.right as i64 - work.left as i64 - width as i64),
        y_thirds: 3 * work.top as i64 + (work.bottom as i64 - work.top as i64 - height as i64),
    }
}

/// Where the window goes if no display can be found.
pub open spec fn fallback() -> Position {
    Position { x_halves: 200, y_thirds: 300 }
}

/// A whole pixel, rounded toward zero and held to 32 bits.
pub open spec fn whole(n: int, d: int) -> int {
    let q = if n >= 0 {
        n / d
    } else {
        -((-n) / d)
    };
    if q > i32::MAX {
        i32::MAX as int
    } else if q < i32::MIN {
        i32::MIN as int
    } else {
        q
    }
}

fn whole_pixel(n: i64, d: i64) -> (r: i32)
    requires
        d == 2 || d == 3,
        n > i64::MIN,
    ensures
        r == whole(n as int, d as int),
{
    let q: i64 = if n >= 0 {
        n / d
    } else {
        -((-n) / d)
    };
    if q > i32::MAX as i64 {
        i32::MAX
    } else if q < i32::MIN as i64 {
        i32::MIN
    } else {
        q as i32
    }
}

impl Position {
    /// The pixel of a position.
    pub fn pixels(self) -> (r: (i32, i32))
        requires
            self.x_halves > i64::MIN,
            self.y_thirds > i64::MIN,
        ensures
            r.0 == whole(self.x_halves as int, 2),
            r.1 == whole(self.y_thirds as int, 3),
    {
        (whole_pixel(self.x_halves, 2), whole_pixel(self.y_thirds, 3))
    }
}

/// Which display a target asks for.
#[derive(Clone, Copy, PartialEq, Eq, Structural, Debug)]
pub enum Monitor {
    UnderCursor,
    Primary,
    OfForegroundWindow,
}

/// The display that is tried first; the primary one comes next.
pub fn first_monitor(target: DisplayTarget) -> (r: Monitor)
    ensures
        r == match target {
            DisplayTarget::Cursor => Monitor::UnderCursor,
            DisplayTarget::Primary => Monitor::Primary,
            DisplayTarget::FocusedWindow => Monitor::OfForegroundWindow,
        },
{
    match target {
        DisplayTarget::Cursor => Monitor::UnderCursor,
        DisplayTarget::Primary => Monitor::Primary,
        DisplayTarget::FocusedWindow => Monitor::OfForegroundWindow,
    }
}

/// The position on the first display that answered.
pub open spec fn show_target(
    first: Option<WorkArea>,
    primary: Option<WorkArea>,
    width: u32,
    height: u32,
) -> Position {
    match first {
        Some(work) => centered(work, width, height),
        None => match primary {
            Some(work) => centered(work, width, height),
            None => fallback(),
        },
    }
}

/// Where to show a window: on the display that was asked for, else on the
/// primary one, else at a fixed place.
pub fn resolve_show_target(
    first: Option<WorkArea>,
    primary: Option<WorkArea>,
    width: u32,
    height: u32,
) -> (r: Position)
    ensures
        r == show_target(first, primary, width, height),
        r.x_halves > i64::MIN,
        r.y_thirds > i64::MIN,
{
    match first {
        Some(work) => centered_position(work, width, height),
        None => match primary {
            Some(work) => centered_position(work, width, height),
            None => Position { x_halves: 200, y_thirds: 300 },
        },
    }
}

/// A window that fits stands wholly inside the work area, with equal margins on
/// its sides and twice as much room below it as above.
pub proof fn law_centered_window_fits(work: WorkArea, width: u32, height: u32)
    requires
        work.right - work.left >= width,
        work.bottom - work.top >= height,
    ensures
        ({
            let p = centered(work, width, height);
            &&& 2 * work.left <= p.x_halves && p.x_halves + 2 * width <= 2 * work.right
            &&& p.x_halves - 2 * work.left == 2 * work.right - (p.x_halves + 2 * width)
            &&& 3 * work.top <= p.y_thirds && p.y_thirds + 3 * height <= 3 * work.bottom
            &&& 2 * (p.y_thirds - 3 * work.top) == 3 * work.bottom - (p.y_thirds + 3 * height)
        }),
{
}

/// A window is shown on the first display that answered, centered across and a third
/// of the free height from the top; where none did, a hundred pixels from both edges.
pub proof fn law_first_display_that_answers(
    first: Option<WorkArea>,
    primary: Option<WorkArea>,
    width: u32,
    height: u32,
)
    ensures
        ({
            let p = show_target(first, primary, width, height);
            let work = if first is Some {
                first
            } else {
                primary
            };
            match work {
                Some(w) => {
                    &&& 2 * p.x_halves + 2 * width == 2 * (w.left + w.right)
                    &&& p.y_thirds == 2 * w.top + w.bottom - height
                },
                None => whole(p.x_halves as int, 2) == 100 && whole(p.y_thirds as int, 3) == 100,
            }
        }),
{
}

/// A position is rounded to a whole pixel toward zero, as far as 32 bits hold it.
pub proof fn law_pixels_round_toward_zero(n: int, d: int)
    requires
        d == 2 || d == 3,
        i32::MIN * d <= n <= i32::MAX * d,
    ensures
        n >= 0 ==> whole(n, d) * d <= n < (whole(n, d) + 1) * d,
        n <= 0 ==> (whole(n, d) - 1) * d < n <= whole(n, d) * d,
{
}

} // verus!
