//! Input injection: which mouse button event a remote click stands for.
use vstd::prelude::*;

verus! {

/// A mouse button going down or up.
#[derive(Clone, Copy, Debug, PartialEq, Eq, Structural)]
pub enum MouseButtonEvent {
    LeftDown,
    LeftUp,
    RightDown,
    RightUp,
    MiddleDown,
    MiddleUp,
}

/// The event for button `button` (0 left, 1 right, 2 middle) being pressed
/// or released; other buttons are not injected.
pub open spec fn button_event(button: u8, pressed: bool) -> Option<MouseButtonEvent> {
    if button == 0 {
        Some(if pressed { MouseButtonEvent::LeftDown } else { MouseButtonEvent::LeftUp })
    } else if button == 1 {
        Some(if pressed { MouseButtonEvent::RightDown } else { MouseButtonEvent::RightUp })
    } else if button == 2 {
        Some(if pressed { MouseButtonEvent::MiddleDown } else { MouseButtonEvent::MiddleUp })
    } else {
        None
    }
}

/// The event to inject for a click of `button`.
pub fn mouse_button_event(button: u8, pressed: bool) -> (ev: Option<MouseButtonEvent>)
    ensures
        ev == button_event(button, pressed),
{
    match (button, pressed) {
        (0, true) => Some(MouseButtonEvent::LeftDown),
        (0, false) => Some(MouseButtonEvent::LeftUp),
        (1, true) => Some(MouseButtonEvent::RightDown),
        (1, false) => Some(MouseButtonEvent::RightUp),
        (2, true) => Some(MouseButtonEvent::MiddleDown),
        (2, false) => Some(MouseButtonEvent::MiddleUp),
        _ => None,
    }
}

/// The Windows mouse-input flag for an event: left down/up 0x2/0x4, right
/// down/up 0x8/0x10, middle down/up 0x20/0x40.
pub open spec fn event_flag(ev: MouseButtonEvent) -> u32 {
    match ev {
        MouseButtonEvent::LeftDown => 0x0002,
        MouseButtonEvent::LeftUp => 0x0004,
        MouseButtonEvent::RightDown => 0x0008,
        MouseButtonEvent::RightUp => 0x0010,
        MouseButtonEvent::MiddleDown => 0x0020,
        MouseButtonEvent::MiddleUp => 0x0040,
    }
}

impl MouseButtonEvent {
    /// The flag Windows' `SendInput` takes for this event.
    pub fn windows_flags(self) -> (f: u32)
        ensures
            f == event_flag(self),
    {
        match self {
            MouseButtonEvent::LeftDown => 0x0002,
            MouseButtonEvent::LeftUp => 0x0004,
            MouseButtonEvent::RightDown => 0x0008,
            MouseButtonEvent::RightUp => 0x0010,
            MouseButtonEvent::MiddleDown => 0x0020,
            MouseButtonEvent::MiddleUp => 0x0040,
        }
    }
}

/// Each flag stands for one event: down and up, and the three buttons, are
/// told apart.
pub proof fn lemma_flags_distinct(a: MouseButtonEvent, b: MouseButtonEvent)
    requires
        a != b,
    ensures
        event_flag(a) != event_flag(b),
{
}

} // verus!
