//! Window messages as plain numbers, and what each asks the program to do.

use vstd::prelude::*;

verus! {

/// The low sixteen bits of a message word.
#[allow(non_snake_case)]
pub fn LOWORD(l: isize) -> (word: isize)
    ensures
        word == l & 0xffff,
        0 <= word <= 0xffff,
        word == l % 0x10000,
{
    assert(0 <= l & 0xffff <= 0xffff) by (bit_vector);
    assert(l & 0xffff == l % 0x10000) by (bit_vector);
    l & 0xffff
}

/// Bits sixteen to thirty-one of a message word.
#[allow(non_snake_case)]
pub fn HIWORD(l: isize) -> (word: isize)
    ensures
        word == (l >> 16) & 0xffff,
        0 <= word <= 0xffff,
        word == (l / 0x10000) % 0x10000,
{
    assert(0 <= (l >> 16) & 0xffff <= 0xffff) by (bit_vector);
    assert((l >> 16) & 0xffff == (l / 0x10000) % 0x10000) by (bit_vector);
    (l >> 16) & 0xffff
}

/// The message by which the tray icon reports what happened to it.
pub const TASKBAR_CB_ID: u32 = 0x8042;

/// The message sent when an item of a menu was chosen.
pub const WM_COMMAND: u32 = 0x0111;

/// The message sent when the window is being destroyed.
pub const WM_DESTROY: u32 = 0x0002;

/// The tray icon's report that the right mouse button was released on it.
pub const WM_RBUTTONUP: u32 = 0x0205;

/// The tray icon's report that it was selected.
pub const NIN_SELECT: u32 = 0x0400;

/// What a window message asks the program to do.
#[derive(Clone, Copy, Debug, PartialEq, Eq, Structural)]
pub enum WindowEvent {
    /// Show the popup menu at the pointer.
    ShowPopupMenu,
    /// Make the next device of the rotation the default.
    NextDevice,
    /// The menu item with this number was chosen.
    MenuCommand(u32),
    /// Store the flags and leave the message loop.
    Destroy,
    /// Nothing of the program's own: the default handling applies.
    Unhandled,
}

/// What the message `msg` with the words `wparam` and `lparam` asks for.
///
/// A report of the tray icon is told apart by the low word of `lparam`; the
/// number of a chosen menu item is the low word of `wparam`.
pub open spec fn event_of(msg: u32, wparam: usize, lparam: isize) -> WindowEvent {
    if msg == TASKBAR_CB_ID {
        if lparam % 0x10000 == WM_RBUTTONUP {
            WindowEvent::ShowPopupMenu
        } else if lparam % 0x10000 == NIN_SELECT {
            WindowEvent::NextDevice
        } else {
            WindowEvent::Unhandled
        }
    } else if msg == WM_COMMAND {
        WindowEvent::MenuCommand((wparam % 0x10000) as u32)
    } else if msg == WM_DESTROY {
        WindowEvent::Destroy
    } else {
        WindowEvent::Unhandled
    }
}

/// Tells what a window message asks the program to do.
pub fn window_event(msg: u32, wparam: usize, lparam: isize) -> (event: WindowEvent)
    ensures
        event == event_of(msg, wparam, lparam),
{
    if msg == TASKBAR_CB_ID {
        let report: isize = LOWORD(lparam);
        if report == 0x0205 {
            WindowEvent::ShowPopupMenu
        } else if report == 0x0400 {
            WindowEvent::NextDevice
        } else {
            WindowEvent::Unhandled
        }
    } else if msg == WM_COMMAND {
        let chosen: usize = wparam & 0xffff;
        assert(wparam & 0xffff == wparam % 0x10000) by (bit_vector);
        WindowEvent::MenuCommand(chosen as u32)
    } else if msg == WM_DESTROY {
        WindowEvent::Destroy
    } else {
        WindowEvent::Unhandled
    }
}

} // verus!
