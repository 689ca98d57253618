//! Windows that plugins make themselves: their messages, their styles, and how
//! they are embedded and moved.

use vstd::prelude::*;

use crate::i18n::{decimal, decimal_of};

verus! {

/// The identifier of a tool window's button.
pub const IDC_BUTTON: usize = 1001;

/// The notification that a button was clicked.
pub const BN_CLICKED: u32 = 0;

pub const WM_DESTROY: u32 = 0x0002;

pub const WM_COMMAND: u32 = 0x0111;

pub const WS_POPUP: u32 = 0x8000_0000;

pub const WS_CHILD: u32 = 0x4000_0000;

pub const WS_VISIBLE: u32 = 0x1000_0000;

/// What a tool window does about a message.
#[derive(Clone, Copy, PartialEq, Eq, Structural, Debug)]
pub enum WindowEvent {
    /// The button was clicked.
    Clicked,
    /// Another command, which needs nothing done.
    Handled,
    /// The window is going: its state is freed and its message loop ends.
    Destroyed,
    /// The system's own handling applies.
    Default,
}

/// The control and the notification that a command message carries: its two
/// lowest 16-bit words.
pub open spec fn command_parts(wparam: usize) -> (usize, u32) {
    ((wparam % 0x1_0000) as usize, (wparam / 0x1_0000 % 0x1_0000) as u32)
}

/// What a message means to a tool window.
pub open spec fn event_of(message: u32, wparam: usize) -> WindowEvent {
    if message == WM_COMMAND {
        if command_parts(wparam) == (IDC_BUTTON, BN_CLICKED) {
            WindowEvent::Clicked
        } else {
            WindowEvent::Handled
        }
    } else if message == WM_DESTROY {
        WindowEvent::Destroyed
    } else {
        WindowEvent::Default
    }
}

/// Decides what a tool window does about a message.
pub fn wndproc(message: u32, wparam: usize) -> (r: WindowEvent)
    ensures
        r == event_of(message, wparam),
{
    if message == WM_COMMAND {
        let control_id: usize = wparam % 0x1_0000;
        let notify_code: u32 = (wparam / 0x1_0000 % 0x1_0000) as u32;
        if control_id == IDC_BUTTON && notify_code == BN_CLICKED {
            WindowEvent::Clicked
        } else {
            WindowEvent::Handled
        }
    } else if message == WM_DESTROY {
        WindowEvent::Destroyed
    } else {
        WindowEvent::Default
    }
}

/// What an embedded window does about a message: it lives in the launcher's
/// message loop, and does not end it.
pub fn embedded_wndproc(message: u32) -> (r: WindowEvent)
    ensures
        r == if message == WM_DESTROY {
            WindowEvent::Handled
        } else {
            WindowEvent::Default
        },
{
    if message == WM_DESTROY {
        WindowEvent::Handled
    } else {
        WindowEvent::Default
    }
}

/// How often the button was clicked.
#[derive(Clone, Copy, PartialEq, Eq, Structural, Debug)]
pub struct CountState {
    pub count: i32,
}

/// The text that shows a count.
pub open spec fn count_text(count: int) -> Seq<char> {
    if count < 0 {
        "clicked -"@ + decimal_of((-count) as nat) + " times"@
    } else {
        "clicked "@ + decimal_of(count as nat) + " times"@
    }
}

impl CountState {
    /// The text that shows the count.
    pub fn text(&self) -> (r: String)
        ensures
            r@ == count_text(self.count as int),
    {
        let count: i64 = self.count as i64;
        let mut r = if count < 0 {
            "clicked -".to_owned()
        } else {
            "clicked ".to_owned()
        };
        let size: u64 = if count < 0 {
            (-count) as u64
        } else {
            count as u64
        };
        r.append(decimal(size).as_str());
        r.append(" times");
        r
    }

    /// Counts a click; returns the label's new text. The count wraps around.
    pub fn click(&mut self) -> (r: String)
        ensures
            final(self).count == old(self).count.wrapping_add(1),
            r@ == count_text(final(self).count as int),
    {
        self.count = self.count.wrapping_add(1);
        self.text()
    }
}

/// Lets one window be open at a time.
#[derive(Clone, Copy, PartialEq, Eq, Structural, Debug)]
pub struct OpenGate {
    pub opening: bool,
}

impl OpenGate {
    /// Whether a window may be opened now; then none may until it is closed.
    pub fn open_tool(&mut self) -> (r: bool)
        ensures
            r == !old(self).opening,
            final(self).opening,
    {
        let was: bool = self.opening;
        self.opening = true;
        !was
    }

    pub fn closed(&mut self)
        ensures
            !final(self).opening,
    {
        self.opening = false;
    }
}

/// A control to make in a tool window.
#[derive(Clone, Copy, Debug)]
pub struct Control {
    pub class: &'static str,
    pub text: &'static str,
    pub x: i32,
    pub y: i32,
    pub width: i32,
    pub height: i32,
    /// The identifier, for a control that sends commands.
    pub id: Option<usize>,
}

/// A window to make, with the controls in it, in order.
#[derive(Debug)]
pub struct WindowPlan {
    pub class: &'static str,
    pub title: &'static str,
    pub width: i32,
    pub height: i32,
    pub controls: Vec<Control>,
}

/// A tool window of its own: a label that counts, and a button.
pub fn standalone_plan() -> (r: WindowPlan)
    ensures
        r.class == "IssenProtoCWindow",
        r.title == "Prototype C Tool",
        (r.width, r.height) == (300i32, 160i32),
        r.controls@ == seq![
            Control {
                class: "STATIC",
                text: "clicked 0 times",
                x: 8,
                y: 8,
                width: 240,
                height: 20,
                id: None,
            },
            Control {
                class: "BUTTON",
                text: "Click me",
                x: 8,
                y: 36,
                width: 100,
                height: 28,
                id: Some(IDC_BUTTON),
            },
        ],
{
    WindowPlan {
        class: "IssenProtoCWindow",
        title: "Prototype C Tool",
        width: 300,
        height: 160,
        controls: vec![
            Control {
                class: "STATIC",
                text: "clicked 0 times",
                x: 8,
                y: 8,
                width: 240,
                height: 20,
                id: None,
            },
            Control {
                class: "BUTTON",
                text: "Click me",
                x: 8,
                y: 36,
                width: 100,
                height: 28,
                id: Some(IDC_BUTTON),
            },
        ],
    }
}

/// A window to embed: a label and a button.
pub fn embedded_plan() -> (r: WindowPlan)
    ensures
        r.class == "IssenProtoBContainer",
        r.title == "",
        (r.width, r.height) == (260i32, 80i32),
        r.controls@ == seq![
            Control {
                class: "STATIC",
                text: "プロトタイプB: SetParent埋め込み",
                x: 8,
                y: 8,
                width: 240,
                height: 20,
                id: None,
            },
            Control {
                class: "BUTTON",
                text: "Click me",
                x: 8,
                y: 36,
                width: 100,
                height: 28,
                id: None,
            },
        ],
{
    WindowPlan {
        class: "IssenProtoBContainer",
        title: "",
        width: 260,
        height: 80,
        controls: vec![
            Control {
                class: "STATIC",
                text: "プロトタイプB: SetParent埋め込み",
                x: 8,
                y: 8,
                width: 240,
                height: 20,
                id: None,
            },
            Control {
                class: "BUTTON",
                text: "Click me",
                x: 8,
                y: 36,
                width: 100,
                height: 28,
                id: None,
            },
        ],
    }
}

/// The style of a window once it is embedded: a visible child, and no window of
/// its own.
pub fn embedded_style(style: u32) -> (r: u32)
    ensures
        r == (style & !WS_POPUP) | WS_CHILD | WS_VISIBLE,
        r & WS_POPUP == 0,
        r & WS_CHILD == WS_CHILD,
        r & WS_VISIBLE == WS_VISIBLE,
{
    let r: u32 = (style & !WS_POPUP) | WS_CHILD | WS_VISIBLE;
    assert(r & 0x8000_0000u32 == 0 && r & 0x4000_0000u32 == 0x4000_0000u32 && r & 0x1000_0000u32
        == 0x1000_0000u32) by (bit_vector)
        requires
            r == (style & !0x8000_0000u32) | 0x4000_0000u32 | 0x1000_0000u32,
    ;
    r
}

/// A rectangle: left, top, width and height.
#[derive(Clone, Copy, PartialEq, Eq, Structural, Debug)]
pub struct ChildRect {
    pub x: i32,
    pub y: i32,
    pub width: i32,
    pub height: i32,
}

/// An embedded window, and where it was put last.
#[derive(Clone, Copy, PartialEq, Eq, Structural, Debug)]
pub struct EmbeddedChild {
    pub handle: Option<usize>,
    pub last_rect: Option<ChildRect>,
}

impl EmbeddedChild {
    /// Whether the window has still to be made: once it is there, it stays.
    pub fn needs_child(&self) -> (r: bool)
        ensures
            r == (self.handle is None),
    {
        self.handle.is_none()
    }

    /// The window that was made; 0 stands for a failure, and it is tried again.
    pub fn on_created(&mut self, handle: usize)
        ensures
            *final(self) == (EmbeddedChild {
                handle: if handle == 0 {
                    old(self).handle
                } else {
                    Some(handle)
                },
                ..*old(self)
            }),
    {
        if handle != 0 {
            self.handle = Some(handle);
        }
    }

    /// Whether the window has to be moved: only where its rectangle changed.
    pub fn reposition(&mut self, rect: ChildRect) -> (r: bool)
        ensures
            r == (old(self).handle is Some && old(self).last_rect != Some(rect)),
            *final(self) == if r {
                EmbeddedChild { last_rect: Some(rect), ..*old(self) }
            } else {
                *old(self)
            },
    {
        if self.handle.is_none() {
            return false;
        }
        let same = match self.last_rect {
            Some(last) => last == rect,
            None => false,
        };
        if same {
            return false;
        }
        self.last_rect = Some(rect);
        true
    }
}

/// Whether a bundled file has to be copied: unless a file of the same size is
/// there. A size is `None` where it cannot be read.
pub fn needs_copy(source_len: Option<u64>, dest_len: Option<u64>) -> (r: bool)
    ensures
        r == !(source_len is Some && source_len == dest_len),
{
    match (source_len, dest_len) {
        (Some(a), Some(b)) => a != b,
        _ => true,
    }
}

/// A click of the tool window's button is the command message whose lowest word names
/// the button and whose next word is zero; any other command needs nothing done. A
/// window that goes ends its message loop, and the system sees to every other message.
pub proof fn law_messages_have_their_meaning(message: u32, control: usize, notification: usize)
    requires
        control < 0x1_0000,
        notification < 0x1_0000,
    ensures
        ({
            let wparam = (notification * 0x1_0000 + control) as usize;
            &&& event_of(0x0111, wparam) == if control == 1001 && notification == 0 {
                WindowEvent::Clicked
            } else {
                WindowEvent::Handled
            }
            &&& event_of(0x0002, wparam) == WindowEvent::Destroyed
            &&& message != 0x0111 && message != 0x0002 ==> event_of(message, wparam)
                == WindowEvent::Default
        }),
{
    let wparam = (notification * 0x1_0000 + control) as usize;
    assert(wparam == notification * 0x1_0000 + control);
    assert(wparam % 0x1_0000 == control);
    assert(wparam / 0x1_0000 == notification);
}

/// The label says how often the button was clicked.
pub proof fn law_count_is_shown(count: nat)
    ensures
        exists|digits: Seq<char>|
            crate::i18n::number_of(digits) == count && count_text(count as int)
                == #[trigger] ("clicked "@ + digits) + " times"@,
{
    crate::i18n::law_decimal_stands_for_the_number(count);
    let digits = decimal_of(count);
    assert(count_text(count as int) == ("clicked "@ + digits) + " times"@);
}

/// The styles that embedding changes.
pub proof fn law_style_numbers()
    ensures
        WS_POPUP == 0x8000_0000,
        WS_CHILD == 0x4000_0000,
        WS_VISIBLE == 0x1000_0000,
{
}

} // verus!
