//! A window that is moved off the screen and back, without being hidden.

use vstd::prelude::*;

use crate::app::{with_tool_window_style, WS_EX_TOOLWINDOW};
use crate::text::same_text;

verus! {

pub const OFFSCREEN_X: i32 = -10000;

pub const OFFSCREEN_Y: i32 = -10000;

pub const ONSCREEN_X: i32 = 200;

pub const ONSCREEN_Y: i32 = 200;

/// How long the window stays before it is moved by itself.
pub const AUTO_TOGGLE_MILLISECONDS: u64 = 1500;

/// The menu entry that quits.
pub const QUIT_MENU_ID: &'static str = "issen-spike-quit";

/// The side of the placeholder icon, in pixels.
pub const ICON_SIZE: usize = 32;

/// The colour of a pixel of the placeholder icon: red, green, blue, opacity.
pub open spec fn icon_pixel() -> Seq<u8> {
    seq![0xF2u8, 0xA9u8, 0x3Bu8, 0xFFu8]
}

/// Where the window is, and whether it is a tool window.
#[derive(Clone, Copy, PartialEq, Eq, Structural, Debug)]
pub struct SpikeWindow {
    pub is_offscreen: bool,
    pub is_tool_window: bool,
}

/// What the event sources brought.
#[derive(Debug)]
pub struct Events {
    pub hotkey: bool,
    /// The entry of the tray menu that was clicked.
    pub menu: Option<String>,
    /// For each click on the tray icon, whether it was the left button.
    pub icon_clicks: Vec<bool>,
}

/// The number of left clicks.
pub open spec fn left_clicks(clicks: Seq<bool>) -> nat
    decreases clicks.len(),
{
    if clicks.len() == 0 {
        0
    } else {
        left_clicks(clicks.drop_last()) + if clicks.last() {
            1nat
        } else {
            0nat
        }
    }
}

/// A flag after a number of flips.
pub open spec fn flipped(flag: bool, times: nat) -> bool {
    flag != (times % 2 == 1)
}

impl SpikeWindow {
    /// Where the window belongs.
    pub open spec fn place(self) -> (i32, i32) {
        if self.is_offscreen {
            (OFFSCREEN_X, OFFSCREEN_Y)
        } else {
            (ONSCREEN_X, ONSCREEN_Y)
        }
    }

    /// Moves the window to the other place, which is returned.
    pub fn do_toggle_offscreen(&mut self) -> (r: (i32, i32))
        ensures
            *final(self) == (SpikeWindow { is_offscreen: !old(self).is_offscreen, ..*old(self) }),
            r == final(self).place(),
    {
        self.is_offscreen = !self.is_offscreen;
        if self.is_offscreen {
            (OFFSCREEN_X, OFFSCREEN_Y)
        } else {
            (ONSCREEN_X, ONSCREEN_Y)
        }
    }

    /// Moves the window by itself, once it stayed long enough. `None` where it stays.
    pub fn auto_toggle(&mut self, elapsed_milliseconds: u64) -> (r: Option<(i32, i32)>)
        ensures
            elapsed_milliseconds < AUTO_TOGGLE_MILLISECONDS ==> r is None && *final(self) == *old(
                self,
            ),
            elapsed_milliseconds >= AUTO_TOGGLE_MILLISECONDS ==> r == Some(final(self).place())
                && *final(self) == (SpikeWindow {
                is_offscreen: !old(self).is_offscreen,
                ..*old(self)
            }),
    {
        if elapsed_milliseconds >= AUTO_TOGGLE_MILLISECONDS {
            Some(self.do_toggle_offscreen())
        } else {
            None
        }
    }

    /// Makes the window a tool window, or no longer one; returns its new style.
    pub fn toggle_tool_window(&mut self, style: u32) -> (r: u32)
        ensures
            *final(self) == (SpikeWindow {
                is_tool_window: !old(self).is_tool_window,
                ..*old(self)
            }),
            r == if final(self).is_tool_window {
                style | WS_EX_TOOLWINDOW
            } else {
                style & !WS_EX_TOOLWINDOW
            },
    {
        self.is_tool_window = !self.is_tool_window;
        if self.is_tool_window {
            with_tool_window_style(style)
        } else {
            style & !WS_EX_TOOLWINDOW
        }
    }

    /// Handles the events of a frame: the hotkey and each left click on the icon
    /// move the window. Returns whether to quit.
    pub fn poll_events(&mut self, events: &Events) -> (r: bool)
        ensures
            final(self).is_tool_window == old(self).is_tool_window,
            final(self).is_offscreen == flipped(
                old(self).is_offscreen,
                left_clicks(events.icon_clicks@) + if events.hotkey {
                    1nat
                } else {
                    0nat
                },
            ),
            r == (events.menu matches Some(id) && id@ == QUIT_MENU_ID@),
    {
        let ghost start = *self;
        let ghost first: nat = if events.hotkey {
            1
        } else {
            0
        };
        if events.hotkey {
            self.do_toggle_offscreen();
        }
        let quit = match &events.menu {
            Some(id) => same_text(id.as_str(), QUIT_MENU_ID),
            None => false,
        };
        let n: usize = events.icon_clicks.len();
        let mut i: usize = 0;
        assert(events.icon_clicks@.take(0) =~= Seq::empty());
        while i < n
            invariant
                i <= n == events.icon_clicks@.len(),
                self.is_tool_window == start.is_tool_window,
                self.is_offscreen == flipped(
                    start.is_offscreen,
                    left_clicks(events.icon_clicks@.take(i as int)) + first,
                ),
            decreases n - i,
        {
            assert(events.icon_clicks@.take(i + 1).drop_last() =~= events.icon_clicks@.take(
                i as int,
            ));
            if events.icon_clicks[i] {
                self.do_toggle_offscreen();
            }
            i += 1;
        }
        assert(events.icon_clicks@.take(n as int) =~= events.icon_clicks@);
        quit
    }
}

/// The pixels of the placeholder icon, row by row.
pub fn placeholder_icon() -> (r: Vec<u8>)
    ensures
        r@.len() == ICON_SIZE * ICON_SIZE * 4,
        forall|i: int| 0 <= i < r@.len() ==> #[trigger] r@[i] == icon_pixel()[i % 4],
{
    let mut r: Vec<u8> = Vec::new();
    let mut n: usize = 0;
    while n < ICON_SIZE * ICON_SIZE
        invariant
            n <= ICON_SIZE * ICON_SIZE,
            r@.len() == n * 4,
            forall|i: int| 0 <= i < r@.len() ==> #[trigger] r@[i] == icon_pixel()[i % 4],
        decreases ICON_SIZE * ICON_SIZE - n,
    {
        r.push(0xF2);
        r.push(0xA9);
        r.push(0x3B);
        r.push(0xFF);
        n += 1;
    }
    r
}

/// Two moves bring the window back to where it was.
pub proof fn law_two_moves_return(flag: bool, times: nat)
    ensures
        flipped(flipped(flag, times), times) == flag,
        flipped(flag, 2 * times) == flag,
{
}

/// The window moves once for each left click, and clicks of other buttons do not count.
pub proof fn law_left_clicks_move(flag: bool, clicks: Seq<bool>, left: bool)
    ensures
        flipped(flag, 0) == flag,
        flipped(flag, left_clicks(clicks.push(true))) != flipped(flag, left_clicks(clicks)),
        flipped(flag, left_clicks(clicks.push(false))) == flipped(flag, left_clicks(clicks)),
        left_clicks(Seq::empty()) == 0,
{
    assert(clicks.push(true).drop_last() =~= clicks);
    assert(clicks.push(false).drop_last() =~= clicks);
}

/// Off the screen, the window is far from it; on the screen, it is where it is seen.
pub proof fn law_places(w: SpikeWindow)
    ensures
        w.is_offscreen ==> w.place() == (-10000i32, -10000i32),
        !w.is_offscreen ==> w.place() == (200i32, 200i32),
{
}

/// The placeholder icon is orange and opaque all over.
pub proof fn law_icon_is_orange()
    ensures
        icon_pixel() == seq![0xF2u8, 0xA9u8, 0x3Bu8, 0xFFu8],
{
}

/// How long the window stays, how large the icon is, and which menu entry quits.
pub proof fn law_spike_values()
    ensures
        AUTO_TOGGLE_MILLISECONDS == 1500,
        ICON_SIZE == 32,
        QUIT_MENU_ID@ == "issen-spike-quit"@,
{
}

} // verus!
