use jojo_server::button::MouseButton;
use jojo_server::codec::{encode_client_message, encode_server_message};
use jojo_server::db::DeviceMap;
use jojo_server::device::{Device, DeviceId};
use jojo_server::handler::{
    client_message_handler, FrameOutcome, InjectionAction, OutboundFrame, Session, SessionState,
    WsFrame,
};
use jojo_server::message::{ButtonAction, ClientMessage, Key, KeyboardButton, ServerMessage};
use jojo_server::motion::run_plan;
use jojo_server::mouse::{MouseButtonState, MouseDriver, MouseRead, MouseRecorder};
use jojo_server::room::{RoomAction, RoomEvent};

fn active_session(id: DeviceId) -> Session {
    let mut s = Session::new(id);
    assert_eq!(s.state(), SessionState::Opening);
    s.start();
    assert_eq!(s.state(), SessionState::Active);
    s
}

#[test]
fn pong_feeds_watchdog_and_ping_is_dropped() {
    let mut s = active_session(DeviceId(1));
    assert_eq!(s.on_frame(WsFrame::Pong), FrameOutcome::WatchdogReset);
    assert_eq!(s.on_frame(WsFrame::Ping), FrameOutcome::Ignored);
    assert_eq!(s.state(), SessionState::Active);
}

#[test]
fn close_frame_raises_exit() {
    let mut s = active_session(DeviceId(2));
    assert_eq!(s.on_frame(WsFrame::Close), FrameOutcome::ExitRaised);
    assert_eq!(s.state(), SessionState::Draining);
}

#[test]
fn text_frame_is_handed_back_for_json_decoding() {
    let mut s = active_session(DeviceId(3));
    let out = s.on_frame(WsFrame::Text(String::from("{\"MouseRead\":[1,2]}")));
    assert_eq!(
        out,
        FrameOutcome::Text(String::from("{\"MouseRead\":[1,2]}"))
    );
}

#[test]
fn malformed_frame_does_not_terminate_session() {
    let mut s = active_session(DeviceId(4));
    // A truncated binary payload is dropped...
    let out = s.on_frame(WsFrame::Binary(vec![0u8, 1, 2]));
    assert_eq!(out, FrameOutcome::Ignored);
    assert_eq!(s.state(), SessionState::Active);
    // ...and a well-formed frame right after is still processed.
    let msg = ClientMessage::MouseRead(MouseRead::new(5, -5));
    let frame = encode_client_message(&msg);
    assert_eq!(s.on_frame(WsFrame::Binary(frame)), FrameOutcome::Message(msg));
    assert_eq!(s.state(), SessionState::Active);
}

#[test]
fn pong_timeout_drains_session_and_close_removes_identity() {
    let id = DeviceId(5);
    let mut devices = DeviceMap::new();
    devices.insert(id, Device::new(id, String::from("pad"), None, Vec::new()));
    devices.take_events();

    let mut s = active_session(id);
    s.on_pong_timeout();
    assert_eq!(s.state(), SessionState::Draining);
    // Raising the exit signal again changes nothing.
    s.on_pong_timeout();
    assert_eq!(s.state(), SessionState::Draining);

    let prev = s.close(&mut devices);
    assert_eq!(s.state(), SessionState::Closed);
    assert!(prev.is_some());
    assert_eq!(devices.get(&id), None);
    assert_eq!(
        devices.take_events(),
        vec![RoomEvent::new(id, RoomAction::Leave)]
    );
}

#[test]
fn ping_tick_enqueues_ping_only_while_active() {
    let mut s = active_session(DeviceId(6));
    assert_eq!(s.on_ping_tick(), Some(OutboundFrame::Ping));
    s.on_write_failed();
    assert_eq!(s.on_ping_tick(), None);
}

#[test]
fn relay_forwards_only_matching_commands() {
    let mine = DeviceId(7);
    let other = DeviceId(8);
    let s = active_session(mine);
    let msg = ServerMessage::RestartDevice(mine);
    assert_eq!(s.relay_command(&msg), Some(encode_server_message(&msg)));
    assert_eq!(s.relay_command(&ServerMessage::RestartDevice(other)), None);
    assert_eq!(s.relay_command(&ServerMessage::ClearCredentials(other)), None);
}

#[test]
fn register_then_motion_then_close_scenario() {
    let a = DeviceId(10);
    let record = Device::new(a, String::from("device-a"), None, Vec::new());
    let mut devices = DeviceMap::new();
    let mut s = active_session(a);

    // RegisterDevice{A, record} arrives as a binary frame.
    let frame = encode_client_message(&ClientMessage::Device(record.clone()));
    let msg = match s.on_frame(WsFrame::Binary(frame)) {
        FrameOutcome::Message(m) => m,
        other => panic!("expected a decoded message, got {:?}", other),
    };
    let acts = client_message_handler(msg, &mut devices);
    assert_eq!(acts, Vec::new());
    assert_eq!(devices.get(&a), Some(&record));

    // MouseSample{dx=10, dy=0}: exactly 10 unit horizontal moves.
    let frame = encode_client_message(&ClientMessage::MouseRead(MouseRead::new(10, 0)));
    let msg = match s.on_frame(WsFrame::Binary(frame)) {
        FrameOutcome::Message(m) => m,
        other => panic!("expected a decoded message, got {:?}", other),
    };
    let acts = client_message_handler(msg, &mut devices);
    assert_eq!(acts.len(), 1);
    let plan = match &acts[0] {
        InjectionAction::Motion(p) => p,
        other => panic!("expected a motion plan, got {:?}", other),
    };
    let mut driver = MouseDriver::new(MouseRecorder::new());
    run_plan(&mut driver, plan);
    let recorder = driver.into_inner();
    let moves = recorder.recorded();
    assert_eq!(moves.len(), 10);
    assert!(moves.iter().all(|m| *m == (1, 0)));

    // A close frame: the session drains, closes, and A leaves.
    assert_eq!(s.on_frame(WsFrame::Close), FrameOutcome::ExitRaised);
    let prev = s.close(&mut devices);
    assert_eq!(s.state(), SessionState::Closed);
    assert_eq!(prev, Some(record));
    assert_eq!(devices.get(&a), None);
    let events = devices.take_events();
    assert_eq!(
        events,
        vec![
            RoomEvent::new(a, RoomAction::Join),
            RoomEvent::new(a, RoomAction::Leave),
        ]
    );
}

#[test]
fn two_sessions_interleave_independently() {
    let a = DeviceId(21);
    let b = DeviceId(22);
    let record_a = Device::new(a, String::from("a"), None, Vec::new());
    let record_b = Device::new(b, String::from("b"), None, Vec::new());
    let mut devices = DeviceMap::new();
    let mut sa = active_session(a);
    let mut sb = active_session(b);

    client_message_handler(ClientMessage::Device(record_a.clone()), &mut devices);
    client_message_handler(ClientMessage::Device(record_b.clone()), &mut devices);
    assert_eq!(devices.get(&a), Some(&record_a));
    assert_eq!(devices.get(&b), Some(&record_b));

    sb.on_pong_timeout();
    sb.close(&mut devices);
    assert_eq!(devices.get(&a), Some(&record_a));
    assert_eq!(devices.get(&b), None);

    sa.on_pong_timeout();
    sa.close(&mut devices);
    assert_eq!(devices.get(&a), None);

    let events = devices.take_events();
    assert_eq!(
        events,
        vec![
            RoomEvent::new(a, RoomAction::Join),
            RoomEvent::new(b, RoomAction::Join),
            RoomEvent::new(b, RoomAction::Leave),
            RoomEvent::new(a, RoomAction::Leave),
        ]
    );
}

#[test]
fn button_actions_dispatch_off_the_registry() {
    let mut devices = DeviceMap::new();
    let msg = ClientMessage::ButtonActions(vec![
        ButtonAction::MouseButton(MouseButton::Left, MouseButtonState::Down),
        ButtonAction::KeyboardButton(KeyboardButton::Key(Key::Space)),
        ButtonAction::GamepadButton(2, false),
    ]);
    let acts = client_message_handler(msg, &mut devices);
    assert_eq!(
        acts,
        vec![
            InjectionAction::MouseButton(MouseButton::Left, MouseButtonState::Down),
            InjectionAction::KeyClick(Key::Space),
            InjectionAction::GamepadButton(2, false),
        ]
    );
    assert_eq!(devices.take_events(), Vec::new());
    assert_eq!(devices.keys(), Vec::new());
}
