//! Membership events emitted by the device registry: one `Join` per
//! registration, one `Leave` per removal of a present identity.

use vstd::prelude::*;

use crate::device::DeviceId;

verus! {

/// The two kinds of membership change a registry can report.
#[derive(Debug, Clone, Copy, PartialEq, Eq, Structural)]
pub enum RoomAction {
    Join,
    Leave,
}

/// A membership event: which identity changed, and how. A plain value
/// type, one emitted per successful registry mutation.
#[derive(Debug, Clone, Copy, PartialEq, Eq, Structural)]
pub struct RoomEvent {
    pub id: DeviceId,
    pub action: RoomAction,
}

impl RoomEvent {
    pub fn new(id: DeviceId, action: RoomAction) -> (e: RoomEvent)
        ensures
            e == (RoomEvent { id, action }),
    {
        RoomEvent { id, action }
    }

    pub fn id(&self) -> (id: DeviceId)
        ensures
            id == self.id,
    {
        self.id
    }

    pub fn action(&self) -> (a: &RoomAction)
        ensures
            *a == self.action,
    {
        &self.action
    }

    pub fn set_id(&mut self, id: DeviceId)
        ensures
            *final(self) == (RoomEvent { id, ..*old(self) }),
    {
        self.id = id;
    }

    pub fn set_action(&mut self, action: RoomAction)
        ensures
            *final(self) == (RoomEvent { action, ..*old(self) }),
    {
        self.action = action;
    }
}

} // verus!
