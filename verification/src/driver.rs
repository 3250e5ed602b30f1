//! Capability drivers that route button work to the injection
//! back-ends.

pub mod button;
pub mod keyboard;
