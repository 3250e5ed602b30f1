//! Device identity and the metadata record a device registers with.

use vstd::prelude::*;

use crate::button::Button;
use crate::mouse::MouseConfig;

verus! {

/// A 128-bit globally unique device identity; the registry key and the
/// routing key for server-to-device commands.
#[derive(Debug, Clone, Copy, PartialEq, Eq, Hash, Structural)]
pub struct DeviceId(pub u128);

impl DeviceId {
    /// Relies on `uuid::Uuid::new_v4` for a randomly generated identity;
    /// nothing is promised of the value.
    #[verifier::external_body]
    pub fn new_v4() -> DeviceId {
        DeviceId(uuid::Uuid::new_v4().as_u128())
    }
}

/// The metadata a device registers: display name, optional pointer
/// sensitivity, and the declared button layout. Owned by the registry
/// once inserted and replaced wholesale on re-registration.
#[derive(Debug, Clone, PartialEq, Eq)]
pub struct Device {
    id: DeviceId,
    name: String,
    mouse_config: Option<MouseConfig>,
    buttons: Vec<Button>,
}

/// The mathematical value of a `Device`: the same fields with the
/// containers abstracted to sequences.
pub struct DeviceView {
    pub id: DeviceId,
    pub name: Seq<char>,
    pub mouse_config: Option<MouseConfig>,
    pub buttons: Seq<Button>,
}

impl View for Device {
    type V = DeviceView;

    open spec fn view(&self) -> DeviceView {
        DeviceView {
            id: self.spec_id(),
            name: self.spec_name(),
            mouse_config: self.spec_mouse_config(),
            buttons: self.spec_buttons(),
        }
    }
}

impl Device {
    pub closed spec fn spec_id(&self) -> DeviceId {
        self.id
    }

    pub closed spec fn spec_name(&self) -> Seq<char> {
        self.name@
    }

    pub closed spec fn spec_mouse_config(&self) -> Option<MouseConfig> {
        self.mouse_config
    }

    pub closed spec fn spec_buttons(&self) -> Seq<Button> {
        self.buttons@
    }

    pub fn new(
        id: DeviceId,
        name: String,
        mouse_config: Option<MouseConfig>,
        buttons: Vec<Button>,
    ) -> (d: Device)
        ensures
            d.spec_id() == id,
            d.spec_name() == name@,
            d.spec_mouse_config() == mouse_config,
            d.spec_buttons() == buttons@,
    {
        Device { id, name, mouse_config, buttons }
    }

    pub fn id(&self) -> (id: DeviceId)
        ensures
            id == self.spec_id(),
    {
        self.id
    }

    pub fn name(&self) -> (n: &str)
        ensures
            n@ == self.spec_name(),
    {
        self.name.as_str()
    }

    pub fn mouse_config(&self) -> (c: &Option<MouseConfig>)
        ensures
            *c == self.spec_mouse_config(),
    {
        &self.mouse_config
    }

    pub fn buttons(&self) -> (b: &Vec<Button>)
        ensures
            b@ == self.spec_buttons(),
    {
        &self.buttons
    }

    pub fn set_id(&mut self, id: DeviceId)
        ensures
            final(self).spec_id() == id,
            final(self).spec_name() == old(self).spec_name(),
            final(self).spec_mouse_config() == old(self).spec_mouse_config(),
            final(self).spec_buttons() == old(self).spec_buttons(),
    {
        self.id = id;
    }

    pub fn set_name(&mut self, name: String)
        ensures
            final(self).spec_id() == old(self).spec_id(),
            final(self).spec_name() == name@,
            final(self).spec_mouse_config() == old(self).spec_mouse_config(),
            final(self).spec_buttons() == old(self).spec_buttons(),
    {
        self.name = name;
    }

    pub fn set_mouse_config(&mut self, mouse_config: Option<MouseConfig>)
        ensures
            final(self).spec_id() == old(self).spec_id(),
            final(self).spec_name() == old(self).spec_name(),
            final(self).spec_mouse_config() == mouse_config,
            final(self).spec_buttons() == old(self).spec_buttons(),
    {
        self.mouse_config = mouse_config;
    }

    pub fn set_buttons(&mut self, buttons: Vec<Button>)
        ensures
            final(self).spec_id() == old(self).spec_id(),
            final(self).spec_name() == old(self).spec_name(),
            final(self).spec_mouse_config() == old(self).spec_mouse_config(),
            final(self).spec_buttons() == buttons@,
    {
        self.buttons = buttons;
    }
}

impl Default for Device {
    fn default() -> (d: Device)
        ensures
            d.spec_id() == DeviceId(0),
            d.spec_name() == Seq::<char>::empty(),
            d.spec_mouse_config() is None,
            d.spec_buttons() == Seq::<Button>::empty(),
    {
        Device {
            id: DeviceId(0),
            name: String::new(),
            mouse_config: None,
            buttons: Vec::new(),
        }
    }
}

} // verus!
