use jojo_server::button::{Button, CustomButton, MouseButton};
use jojo_server::codec::{decode_client_message, encode_client_message, encode_server_message};
use jojo_server::device::{Device, DeviceId};
use jojo_server::message::{
    AxisRead, ButtonAction, ClientMessage, CustomCommand, HatRead, Key, KeyboardButton,
    ServerMessage,
};
use jojo_server::mouse::{MouseButtonState, MouseConfig, MouseRead};

#[test]
fn mouse_read_frame_has_exact_bytes() {
    let frame = encode_client_message(&ClientMessage::MouseRead(MouseRead::new(1, -1)));
    // tag, then 1 and -1 shifted by 2^31, little endian.
    assert_eq!(
        frame,
        vec![0u8, 0x01, 0x00, 0x00, 0x80, 0xFF, 0xFF, 0xFF, 0x7F]
    );
}

#[test]
fn restart_command_has_exact_bytes() {
    let frame = encode_server_message(&ServerMessage::RestartDevice(DeviceId(0x0102)));
    let mut expected = vec![1u8, 0x02, 0x01];
    expected.extend(std::iter::repeat(0u8).take(14));
    assert_eq!(frame, expected);
}

#[test]
fn update_command_has_exact_bytes() {
    let frame = encode_server_message(&ServerMessage::UpdateDevice(
        DeviceId(5),
        vec![(DeviceId(9), vec![ButtonAction::GamepadButton(1, true)])],
    ));
    let mut expected = vec![0u8, 5];
    expected.extend(std::iter::repeat(0u8).take(15)); // rest of the target id
    expected.push(1); // one pair
    expected.extend(std::iter::repeat(0u8).take(7));
    expected.push(9); // the pair's device id
    expected.extend(std::iter::repeat(0u8).take(15));
    expected.push(1); // one action
    expected.extend(std::iter::repeat(0u8).take(7));
    expected.extend([2u8, 1, 1]); // gamepad button 1 pressed
    assert_eq!(frame, expected);
}

#[test]
fn mouse_read_round_trip() {
    let msg = ClientMessage::MouseRead(MouseRead::new(-2000, 35));
    let frame = encode_client_message(&msg);
    assert_eq!(decode_client_message(&frame), Some(msg));
}

#[test]
fn axis_and_hat_round_trip() {
    let axis = ClientMessage::AxisRead(AxisRead(3, -77));
    let frame = encode_client_message(&axis);
    assert_eq!(decode_client_message(&frame), Some(axis));

    let hat = ClientMessage::HatRead(HatRead(1, 9));
    let frame = encode_client_message(&hat);
    assert_eq!(decode_client_message(&frame), Some(hat));
}

#[test]
fn button_actions_round_trip() {
    let msg = ClientMessage::ButtonActions(vec![
        ButtonAction::MouseButton(MouseButton::Right, MouseButtonState::Down),
        ButtonAction::KeyboardButton(KeyboardButton::Sequence(String::from("héllo ☃"))),
        ButtonAction::KeyboardButton(KeyboardButton::SequenceDsl(String::from("{+CTRL}c"))),
        ButtonAction::KeyboardButton(KeyboardButton::Key(Key::Space)),
        ButtonAction::GamepadButton(5, true),
        ButtonAction::CustomButton(CustomCommand::Binary(String::from("/usr/bin/true"))),
    ]);
    let frame = encode_client_message(&msg);
    assert_eq!(decode_client_message(&frame), Some(msg));
}

#[test]
fn device_round_trip() {
    let device = Device::new(
        DeviceId(0xDEADBEEF_00112233_44556677_8899AABB),
        String::from("left-hand pad"),
        Some(MouseConfig::new(2, -3)),
        vec![
            Button::MouseButton(MouseButton::Left),
            Button::CustomButton(CustomButton),
            Button::MouseButton(MouseButton::ScrollDown),
        ],
    );
    let msg = ClientMessage::Device(device);
    let frame = encode_client_message(&msg);
    assert_eq!(decode_client_message(&frame), Some(msg));
}

#[test]
fn truncated_frame_is_rejected() {
    let msg = ClientMessage::MouseRead(MouseRead::new(10, 0));
    let mut frame = encode_client_message(&msg);
    frame.pop();
    assert_eq!(decode_client_message(&frame), None);
}

#[test]
fn unknown_tag_is_rejected() {
    assert_eq!(decode_client_message(&vec![9u8, 0, 0, 0]), None);
    assert_eq!(decode_client_message(&Vec::new()), None);
}

#[test]
fn trailing_bytes_are_rejected() {
    let msg = ClientMessage::AxisRead(AxisRead(0, 0));
    let mut frame = encode_client_message(&msg);
    frame.push(0);
    assert_eq!(decode_client_message(&frame), None);
}

#[test]
fn invalid_scalar_in_string_is_rejected() {
    // A device frame whose name holds one "character" inside the
    // surrogate range: well-formed lengths, invalid code point.
    let msg = ClientMessage::Device(Device::new(
        DeviceId(1),
        String::from("x"),
        None,
        Vec::new(),
    ));
    let mut frame = encode_client_message(&msg);
    // The name's single character sits after tag (1) + id (16) +
    // char count (8); overwrite its code with a surrogate.
    let at = 1 + 16 + 8;
    frame[at] = 0x00;
    frame[at + 1] = 0xD8;
    frame[at + 2] = 0x00;
    frame[at + 3] = 0x00;
    assert_eq!(decode_client_message(&frame), None);
}
