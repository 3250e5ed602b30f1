//! The button driver of the dispatch path: it owns one mouse back-end
//! and one keyboard back-end and turns a mouse button with its state
//! into the matching press or release call.

use vstd::prelude::*;

use crate::button::MouseButton;
use crate::driver::keyboard::KeyboardAdapter;
use crate::mouse::{MouseAdapter, MouseButtonState};

verus! {

/// Owns the two back-ends the button path injects through.
pub struct ButtonDriver<M: MouseAdapter, K: KeyboardAdapter> {
    mouse_driver: M,
    keyboard_driver: K,
}

impl<M: MouseAdapter, K: KeyboardAdapter> ButtonDriver<M, K> {
    /// The relative moves the owned mouse back-end has observed;
    /// button presses never add to it.
    pub closed spec fn pointer_moves(&self) -> Seq<(int, int)> {
        self.mouse_driver.moves()
    }

    /// The button presses and releases the owned mouse back-end has
    /// observed, in order.
    pub closed spec fn button_events(&self) -> Seq<(MouseButton, MouseButtonState)> {
        self.mouse_driver.button_events()
    }

    pub fn new(mouse_driver: M, keyboard_driver: K) -> (d: ButtonDriver<M, K>)
        ensures
            d.pointer_moves() == mouse_driver.moves(),
            d.button_events() == mouse_driver.button_events(),
    {
        ButtonDriver { mouse_driver, keyboard_driver }
    }

    /// The owned mouse back-end, e.g. to read a recorded log.
    pub fn mouse_driver(&self) -> (m: &M)
        ensures
            m.moves() == self.pointer_moves(),
            m.button_events() == self.button_events(),
    {
        &self.mouse_driver
    }

    /// Press or release one mouse button on the mouse back-end:
    /// exactly one call, a press on `Down` and a release on `Up`, with
    /// no pointer movement.
    pub fn button_to_state(&mut self, mouse_button: &MouseButton, state: &MouseButtonState)
        ensures
            final(self).pointer_moves() == old(self).pointer_moves(),
            final(self).button_events() == old(self).button_events().push(
                (*mouse_button, *state),
            ),
    {
        match state {
            MouseButtonState::Up => self.mouse_driver.mouse_move_up(*mouse_button),
            MouseButtonState::Down => self.mouse_driver.mouse_move_down(*mouse_button),
        }
    }
}

} // verus!
