//! Pointer samples, pointer configuration, and the mouse injection
//! capability the session consumes.

use vstd::prelude::*;

use crate::button::MouseButton;

verus! {

/// Whether a button is being pressed or released.
#[derive(Debug, Clone, Copy, PartialEq, Eq, Structural)]
pub enum MouseButtonState {
    Up,
    Down,
}

/// The mouse injection back-end the core consumes. Implementations live
/// outside the verified library (an OS input driver, or a recorder in
/// tests); `moves` and `button_events` are the abstract logs of what
/// was injected, so callers can state exactly which calls a sequence
/// of operations makes on the back-end.
pub trait MouseAdapter: Sized {
    /// Abstract log of every relative move injected so far, in order.
    /// Back-ends outside the library (real OS drivers) keep the
    /// default, about which nothing is known.
    open spec fn moves(&self) -> Seq<(int, int)> {
        Seq::empty()
    }

    /// Abstract log of every button press and release injected so far,
    /// in order. Back-ends outside the library keep the default.
    open spec fn button_events(&self) -> Seq<(MouseButton, MouseButtonState)> {
        Seq::empty()
    }

    fn mouse_move_relative(&mut self, x: i32, y: i32)
        ensures
            final(self).moves() == old(self).moves().push((x as int, y as int)),
            final(self).button_events() == old(self).button_events(),
    ;

    fn mouse_move_down(&mut self, button: MouseButton)
        ensures
            final(self).moves() == old(self).moves(),
            final(self).button_events() == old(self).button_events().push(
                (button, MouseButtonState::Down),
            ),
    ;

    fn mouse_move_up(&mut self, button: MouseButton)
        ensures
            final(self).moves() == old(self).moves(),
            final(self).button_events() == old(self).button_events().push(
                (button, MouseButtonState::Up),
            ),
    ;
}

/// Owns one mouse back-end and forwards relative moves to it.
pub struct MouseDriver<A: MouseAdapter>(A);

impl<A: MouseAdapter> MouseDriver<A> {
    /// The move log of the owned back-end.
    pub closed spec fn moves(&self) -> Seq<(int, int)> {
        self.0.moves()
    }

    /// The button log of the owned back-end.
    pub closed spec fn button_events(&self) -> Seq<(MouseButton, MouseButtonState)> {
        self.0.button_events()
    }

    pub fn new(driver: A) -> (d: MouseDriver<A>)
        ensures
            d.moves() == driver.moves(),
            d.button_events() == driver.button_events(),
    {
        MouseDriver(driver)
    }

    pub fn mouse_move_relative(&mut self, x: i32, y: i32)
        ensures
            final(self).moves() == old(self).moves().push((x as int, y as int)),
            final(self).button_events() == old(self).button_events(),
    {
        self.0.mouse_move_relative(x, y)
    }

    /// Hand the back-end back, e.g. to read a recorded log.
    pub fn into_inner(self) -> (a: A)
        ensures
            a.moves() == self.moves(),
            a.button_events() == self.button_events(),
    {
        self.0
    }
}

/// A mouse back-end that records every injection call instead of
/// performing one: the test double the library's own tests observe.
pub struct MouseRecorder {
    moves: Vec<(i32, i32)>,
    buttons: Vec<(MouseButton, MouseButtonState)>,
}

impl MouseRecorder {
    pub fn new() -> (r: MouseRecorder)
        ensures
            r.moves() == Seq::<(int, int)>::empty(),
            r.button_events() == Seq::<(MouseButton, MouseButtonState)>::empty(),
    {
        let r = MouseRecorder { moves: Vec::new(), buttons: Vec::new() };
        proof {
            assert(r.moves() =~= Seq::<(int, int)>::empty());
        }
        r
    }

    /// The relative moves observed so far, in order.
    pub fn recorded(&self) -> (v: &Vec<(i32, i32)>)
        ensures
            self.moves() == v@.map_values(|p: (i32, i32)| (p.0 as int, p.1 as int)),
    {
        &self.moves
    }

    /// The button presses and releases observed so far, in order.
    pub fn recorded_buttons(&self) -> (v: &Vec<(MouseButton, MouseButtonState)>)
        ensures
            v@ == self.button_events(),
    {
        &self.buttons
    }
}

impl MouseAdapter for MouseRecorder {
    closed spec fn moves(&self) -> Seq<(int, int)> {
        self.moves@.map_values(|p: (i32, i32)| (p.0 as int, p.1 as int))
    }

    closed spec fn button_events(&self) -> Seq<(MouseButton, MouseButtonState)> {
        self.buttons@
    }

    fn mouse_move_relative(&mut self, x: i32, y: i32)
        ensures
            final(self).moves() == old(self).moves().push((x as int, y as int)),
            final(self).button_events() == old(self).button_events(),
    {
        self.moves.push((x, y));
        proof {
            assert(self.moves() =~= old(self).moves().push((x as int, y as int)));
        }
    }

    fn mouse_move_down(&mut self, button: MouseButton)
        ensures
            final(self).moves() == old(self).moves(),
            final(self).button_events() == old(self).button_events().push(
                (button, MouseButtonState::Down),
            ),
    {
        self.buttons.push((button, MouseButtonState::Down));
    }

    fn mouse_move_up(&mut self, button: MouseButton)
        ensures
            final(self).moves() == old(self).moves(),
            final(self).button_events() == old(self).button_events().push(
                (button, MouseButtonState::Up),
            ),
    {
        self.buttons.push((button, MouseButtonState::Up));
    }
}

/// One coarse 2D displacement sample sent by a device.
#[derive(Debug, Clone, Copy, PartialEq, Eq, Structural)]
pub struct MouseRead {
    pub x_read: i32,
    pub y_read: i32,
}

impl MouseRead {
    pub open spec fn spec_x(&self) -> i32 {
        self.x_read
    }

    pub open spec fn spec_y(&self) -> i32 {
        self.y_read
    }

    pub fn new(x_read: i32, y_read: i32) -> (r: MouseRead)
        ensures
            r.spec_x() == x_read,
            r.spec_y() == y_read,
    {
        MouseRead { x_read, y_read }
    }

    pub fn x_read(&self) -> (x: i32)
        ensures
            x == self.spec_x(),
    {
        self.x_read
    }

    pub fn y_read(&self) -> (y: i32)
        ensures
            y == self.spec_y(),
    {
        self.y_read
    }
}

/// Per-device pointer sensitivity, one signed factor per axis.
#[derive(Debug, Clone, Copy, PartialEq, Eq, Structural)]
pub struct MouseConfig {
    pub x_sen: i8,
    pub y_sen: i8,
}

impl MouseConfig {
    pub open spec fn spec_x_sen(&self) -> i8 {
        self.x_sen
    }

    pub open spec fn spec_y_sen(&self) -> i8 {
        self.y_sen
    }

    pub fn new(x_sen: i8, y_sen: i8) -> (c: MouseConfig)
        ensures
            c.spec_x_sen() == x_sen,
            c.spec_y_sen() == y_sen,
    {
        MouseConfig { x_sen, y_sen }
    }

    pub fn x_sen(&self) -> (v: i8)
        ensures
            v == self.spec_x_sen(),
    {
        self.x_sen
    }

    pub fn y_sen(&self) -> (v: i8)
        ensures
            v == self.spec_y_sen(),
    {
        self.y_sen
    }
}

impl Default for MouseConfig {
    fn default() -> (c: MouseConfig)
        ensures
            c.spec_x_sen() == 1,
            c.spec_y_sen() == -1,
    {
        MouseConfig { x_sen: 1, y_sen: -1 }
    }
}

} // verus!
