//! Button layout a device declares, and the driver that turns mouse-button
//! presses into calls on the injection back-ends.

use vstd::prelude::*;

use crate::driver::keyboard::KeyboardAdapter;
use crate::mouse::{MouseAdapter, MouseButtonState};

verus! {

/// A custom (device-defined) button with no built-in meaning.
#[derive(Debug, Clone, Copy, PartialEq, Eq, Structural)]
pub struct CustomButton;

/// The mouse buttons and scroll directions a device can declare.
#[derive(Debug, Clone, Copy, PartialEq, Eq, Structural)]
pub enum MouseButton {
    Left,
    Middle,
    Right,
    Back,
    Forward,
    ScrollUp,
    ScrollDown,
    ScrollLeft,
    ScrollRight,
}

/// One entry of a device's declared button layout.
#[derive(Debug, Clone, Copy, PartialEq, Eq, Structural)]
pub enum Button {
    MouseButton(MouseButton),
    CustomButton(CustomButton),
}

impl Default for Button {
    fn default() -> (b: Button)
        ensures
            b == Button::MouseButton(MouseButton::Left),
    {
        Button::MouseButton(MouseButton::Left)
    }
}

/// Owns a mouse and a keyboard back-end and presses or releases mouse
/// buttons on the former. Only the left button is handled so far; the
/// caller keeps the rest away.
pub struct ButtonDriver<M: MouseAdapter, K: KeyboardAdapter> {
    mouse_driver: M,
    keyboard_driver: K,
}

impl<M: MouseAdapter, K: KeyboardAdapter> ButtonDriver<M, K> {
    /// The relative moves the owned mouse back-end has observed;
    /// button presses never add to it.
    pub closed spec fn pointer_moves(&self) -> Seq<(int, int)> {
        self.mouse_driver.moves()
    }

    /// The button presses and releases the owned mouse back-end has
    /// observed, in order.
    pub closed spec fn button_events(&self) -> Seq<(MouseButton, MouseButtonState)> {
        self.mouse_driver.button_events()
    }

    pub fn new(mouse_driver: M, keyboard_driver: K) -> (d: ButtonDriver<M, K>)
        ensures
            d.pointer_moves() == mouse_driver.moves(),
            d.button_events() == mouse_driver.button_events(),
    {
        ButtonDriver { mouse_driver, keyboard_driver }
    }

    /// The owned mouse back-end, e.g. to read a recorded log.
    pub fn mouse_driver(&self) -> (m: &M)
        ensures
            m.moves() == self.pointer_moves(),
            m.button_events() == self.button_events(),
    {
        &self.mouse_driver
    }

    /// Press the button on the mouse back-end: exactly one press call,
    /// no pointer movement.
    pub fn mouse_move_down(&mut self, mouse_button: MouseButton)
        requires
            mouse_button == MouseButton::Left,
        ensures
            final(self).pointer_moves() == old(self).pointer_moves(),
            final(self).button_events() == old(self).button_events().push(
                (mouse_button, MouseButtonState::Down),
            ),
    {
        self.mouse_driver.mouse_move_down(mouse_button);
    }

    /// Release the button on the mouse back-end: exactly one release
    /// call, no pointer movement.
    pub fn mouse_move_up(&mut self, mouse_button: MouseButton)
        requires
            mouse_button == MouseButton::Left,
        ensures
            final(self).pointer_moves() == old(self).pointer_moves(),
            final(self).button_events() == old(self).button_events().push(
                (mouse_button, MouseButtonState::Up),
            ),
    {
        self.mouse_driver.mouse_move_up(mouse_button);
    }
}

/// A single button sample read from a device.
#[derive(Debug, Clone, Copy, PartialEq, Eq, Structural)]
pub struct ButtonRead {
    kind: Button,
}

impl ButtonRead {
    /// The button this read reports.
    pub closed spec fn spec_kind(&self) -> Button {
        self.kind
    }

    pub fn new(kind: Button) -> (r: ButtonRead)
        ensures
            r.spec_kind() == kind,
    {
        ButtonRead { kind }
    }

    pub fn kind(&self) -> (k: &Button)
        ensures
            *k == self.spec_kind(),
    {
        &self.kind
    }
}

} // verus!
