//! Session engine for a remote-input host: a device registry with
//! membership events, a wire-message codec, a motion-smoothing scheduler,
//! and the per-connection session state machine that ties them together.

pub mod button;
pub mod codec;
pub mod db;
pub mod device;
pub mod driver;
pub mod handler;
pub mod message;
pub mod motion;
pub mod mouse;
pub mod room;
