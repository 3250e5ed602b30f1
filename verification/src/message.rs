//! The wire protocol's payload types: the tagged unions a device sends
//! to the host and the host broadcasts back to devices.

use vstd::prelude::*;

use crate::button::MouseButton;
use crate::device::{Device, DeviceId};
use crate::mouse::{MouseButtonState, MouseRead};

verus! {

/// Named keyboard keys a device can ask the host to press.
#[derive(Debug, Clone, Copy, PartialEq, Eq, Structural)]
pub enum Key {
    Alt,
    Backspace,
    Control,
    Escape,
    Meta,
    Return,
    Shift,
    Space,
    Tab,
}

/// One keyboard action: a literal text sequence, a text sequence in the
/// key-DSL form the keyboard back-end parses, or a single named key.
#[derive(Debug, Clone, PartialEq, Eq)]
pub enum KeyboardButton {
    Sequence(String),
    SequenceDsl(String),
    Key(Key),
}

/// A command a device can trigger on the host.
#[derive(Debug, Clone, PartialEq, Eq)]
pub enum CustomCommand {
    Binary(String),
}

/// One gamepad axis sample: axis number and raw value.
#[derive(Debug, Clone, Copy, PartialEq, Eq, Structural)]
pub struct AxisRead(pub u8, pub i32);

/// One gamepad hat sample: hat number and raw value.
#[derive(Debug, Clone, Copy, PartialEq, Eq, Structural)]
pub struct HatRead(pub u8, pub i32);

/// One button action in a batch: each carries its press/release or
/// one-shot payload and is routed to its capability's back-end.
#[derive(Debug, Clone, PartialEq, Eq)]
pub enum ButtonAction {
    MouseButton(MouseButton, MouseButtonState),
    KeyboardButton(KeyboardButton),
    GamepadButton(u8, bool),
    CustomButton(CustomCommand),
}

/// A message a device sends to the host. Transient: constructed per
/// inbound frame and consumed immediately by dispatch.
#[derive(Debug, Clone, PartialEq, Eq)]
pub enum ClientMessage {
    MouseRead(MouseRead),
    ButtonActions(Vec<ButtonAction>),
    AxisRead(AxisRead),
    HatRead(HatRead),
    Device(Device),
}

/// A command the host broadcasts to all sessions; each session forwards
/// only the ones whose identity matches its own device.
#[derive(Debug, Clone, PartialEq, Eq)]
pub enum ServerMessage {
    UpdateDevice(DeviceId, Vec<(DeviceId, Vec<ButtonAction>)>),
    RestartDevice(DeviceId),
    ClearCredentials(DeviceId),
}

/// The mathematical value of a `KeyboardButton`.
pub enum KeyboardButtonView {
    Sequence(Seq<char>),
    SequenceDsl(Seq<char>),
    Key(Key),
}

/// The mathematical value of a `CustomCommand`.
pub enum CustomCommandView {
    Binary(Seq<char>),
}

/// The mathematical value of a `ButtonAction`.
pub enum ButtonActionView {
    MouseButton(MouseButton, MouseButtonState),
    KeyboardButton(KeyboardButtonView),
    GamepadButton(u8, bool),
    CustomButton(CustomCommandView),
}

/// The mathematical value of a `ClientMessage`.
pub enum ClientMessageView {
    MouseRead(MouseRead),
    ButtonActions(Seq<ButtonActionView>),
    AxisRead(AxisRead),
    HatRead(HatRead),
    Device(crate::device::DeviceView),
}

/// The mathematical value of a `ServerMessage`.
pub enum ServerMessageView {
    UpdateDevice(DeviceId, Seq<(DeviceId, Seq<ButtonActionView>)>),
    RestartDevice(DeviceId),
    ClearCredentials(DeviceId),
}

impl View for KeyboardButton {
    type V = KeyboardButtonView;

    open spec fn view(&self) -> KeyboardButtonView {
        match self {
            KeyboardButton::Sequence(s) => KeyboardButtonView::Sequence(s@),
            KeyboardButton::SequenceDsl(s) => KeyboardButtonView::SequenceDsl(s@),
            KeyboardButton::Key(k) => KeyboardButtonView::Key(*k),
        }
    }
}

impl View for CustomCommand {
    type V = CustomCommandView;

    open spec fn view(&self) -> CustomCommandView {
        match self {
            CustomCommand::Binary(p) => CustomCommandView::Binary(p@),
        }
    }
}

impl View for ButtonAction {
    type V = ButtonActionView;

    open spec fn view(&self) -> ButtonActionView {
        match self {
            ButtonAction::MouseButton(b, st) => ButtonActionView::MouseButton(*b, *st),
            ButtonAction::KeyboardButton(k) => ButtonActionView::KeyboardButton(k@),
            ButtonAction::GamepadButton(b, p) => ButtonActionView::GamepadButton(*b, *p),
            ButtonAction::CustomButton(c) => ButtonActionView::CustomButton(c@),
        }
    }
}

impl View for ClientMessage {
    type V = ClientMessageView;

    open spec fn view(&self) -> ClientMessageView {
        match self {
            ClientMessage::MouseRead(r) => ClientMessageView::MouseRead(*r),
            ClientMessage::ButtonActions(v) => ClientMessageView::ButtonActions(
                v@.map_values(|a: ButtonAction| a@),
            ),
            ClientMessage::AxisRead(a) => ClientMessageView::AxisRead(*a),
            ClientMessage::HatRead(h) => ClientMessageView::HatRead(*h),
            ClientMessage::Device(d) => ClientMessageView::Device(d@),
        }
    }
}

impl View for ServerMessage {
    type V = ServerMessageView;

    open spec fn view(&self) -> ServerMessageView {
        match self {
            ServerMessage::UpdateDevice(id, v) => ServerMessageView::UpdateDevice(
                *id,
                v@.map_values(
                    |p: (DeviceId, Vec<ButtonAction>)|
                        (p.0, p.1@.map_values(|a: ButtonAction| a@)),
                ),
            ),
            ServerMessage::RestartDevice(id) => ServerMessageView::RestartDevice(*id),
            ServerMessage::ClearCredentials(id) => ServerMessageView::ClearCredentials(*id),
        }
    }
}

impl ServerMessage {
    /// The identity this command is addressed to.
    pub open spec fn spec_target(&self) -> DeviceId {
        match self {
            ServerMessage::UpdateDevice(id, _) => *id,
            ServerMessage::RestartDevice(id) => *id,
            ServerMessage::ClearCredentials(id) => *id,
        }
    }

    pub fn target(&self) -> (id: DeviceId)
        ensures
            id == self.spec_target(),
    {
        match self {
            ServerMessage::UpdateDevice(id, _) => *id,
            ServerMessage::RestartDevice(id) => *id,
            ServerMessage::ClearCredentials(id) => *id,
        }
    }
}

} // verus!
