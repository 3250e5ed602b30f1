//! The keyboard injection capability the core consumes.

use vstd::prelude::*;

use crate::message::Key;

verus! {

/// The keyboard back-end: typing text and pressing named keys.
/// Implementations live outside the verified library (an OS input
/// driver, or a recorder in tests).
pub trait KeyboardAdapter: Sized {
    fn key_sequence(&mut self, sequence: &str);

    fn key_click(&mut self, key: Key);

    fn key_down(&mut self, key: Key);

    fn key_up(&mut self, key: Key);
}

} // verus!
