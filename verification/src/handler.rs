//! The per-connection session engine: the lifecycle state machine, the
//! inbound frame dispatcher, the client-message dispatch to injection
//! back-ends and registry, and the server-command relay filter.
//!
//! The embedding runs the concurrent activities (outbound writer,
//! liveness prober, liveness watchdog, inbound reader, upstream relay)
//! and hands every observation to these functions; every decision they
//! make is verified here. Any activity's failure raises the exit signal
//! by driving the session to `Draining`; raising it again is a no-op,
//! and the registry entry is removed exactly once, in `close`, after
//! the activities have stopped.

use vstd::prelude::*;

use crate::codec::{enc_server, spec_decode_client};
use crate::codec::{decode_client_message, encode_server_message};
use crate::db::{spec_register, spec_register_events, spec_unregister, spec_unregister_events};
use crate::db::DeviceMap;
use crate::device::{Device, DeviceId};
use crate::button::MouseButton;
use crate::message::{
    ButtonAction, ButtonActionView, ClientMessage, CustomCommand, CustomCommandView, Key,
    KeyboardButton, KeyboardButtonView, ServerMessage,
};
use crate::motion::{plan_motion, motion_steps_ok, MotionPlan, MOTION_WINDOW_MILLIS};
use crate::mouse::MouseButtonState;

verus! {

/// The liveness window: with no pong for this long, the session is
/// declared dead. Kept at twice the ping period so one unanswered ping
/// is tolerated.
pub const TIMEOUT_MILLIS: u64 = 10_000;

/// The liveness probing period: one ping is enqueued this often.
pub const PING_MILLIS: u64 = 5_000;

/// The timeout window tolerates at least one unanswered ping before the
/// connection is declared dead.
pub proof fn lemma_timeout_tolerates_missed_ping()
    ensures
        TIMEOUT_MILLIS >= 2 * PING_MILLIS,
{
}

/// The connection lifecycle. `Opening`: transport handshake done,
/// activities not yet started. `Active`: all activities running.
/// `Draining`: the exit signal has been raised, activities are being
/// stopped. `Closed`: registry entry removed, terminal.
#[derive(Debug, Clone, Copy, PartialEq, Eq, Structural)]
pub enum SessionState {
    Opening,
    Active,
    Draining,
    Closed,
}

/// One frame read from the transport. The payload format is chosen per
/// frame by the sender: text frames carry UTF-8 JSON, binary frames the
/// compact binary encoding.
#[derive(Debug, Clone, PartialEq, Eq)]
pub enum WsFrame {
    Text(String),
    Binary(Vec<u8>),
    Ping,
    Pong,
    Close,
}

/// What the session decides about one inbound frame.
#[derive(Debug, Clone, PartialEq, Eq)]
pub enum FrameOutcome {
    /// A pong arrived: the liveness watchdog's window starts over.
    WatchdogReset,
    /// Nothing to do: a ping, or a malformed payload that was dropped.
    Ignored,
    /// A close frame: the exit signal is raised, the session drains.
    ExitRaised,
    /// A well-formed binary payload: dispatch this message.
    Message(ClientMessage),
    /// A text payload: the embedding decodes the JSON (the one step the
    /// library leaves outside, since it goes through serde's
    /// `Deserializer`) and dispatches the result.
    Text(String),
}

/// A frame the session asks the outbound writer to send.
#[derive(Debug, Clone, PartialEq, Eq)]
pub enum OutboundFrame {
    Ping,
    Binary(Vec<u8>),
}

/// One injection call dispatch hands to a back-end. The embedding
/// executes these against the real drivers, off the dispatcher's
/// execution context so a slow back-end cannot stall liveness probing.
#[derive(Debug, Clone, PartialEq, Eq)]
pub enum InjectionAction {
    /// A smoothed pointer displacement for the mouse back-end.
    Motion(MotionPlan),
    MouseButton(MouseButton, MouseButtonState),
    KeySequence(String),
    KeySequenceDsl(String),
    KeyClick(Key),
    GamepadButton(u8, bool),
    GamepadAxis(u8, i32),
    GamepadHat(u8, i32),
    RunBinary(String),
}

/// The injection call that carries out one button action.
pub open spec fn action_matches(ia: InjectionAction, a: ButtonActionView) -> bool {
    match a {
        ButtonActionView::MouseButton(mb, st) => ia == InjectionAction::MouseButton(mb, st),
        ButtonActionView::KeyboardButton(KeyboardButtonView::Sequence(s)) => ia matches
            InjectionAction::KeySequence(t) && t@ == s,
        ButtonActionView::KeyboardButton(KeyboardButtonView::SequenceDsl(s)) => ia matches
            InjectionAction::KeySequenceDsl(t) && t@ == s,
        ButtonActionView::KeyboardButton(KeyboardButtonView::Key(k)) => ia
            == InjectionAction::KeyClick(k),
        ButtonActionView::GamepadButton(btn, pressed) => ia == InjectionAction::GamepadButton(
            btn,
            pressed,
        ),
        ButtonActionView::CustomButton(CustomCommandView::Binary(p)) => ia matches
            InjectionAction::RunBinary(t) && t@ == p,
    }
}

/// A smoothed plan for exactly the displacement the sample carries:
/// the step sequence the scheduler defines, paced over the window.
pub open spec fn plan_matches(p: MotionPlan, x: i32, y: i32) -> bool {
    &&& motion_steps_ok(p.steps@, x as int, y as int)
    &&& forall|j: int|
        0 <= j < p.steps@.len() ==> (((#[trigger] p.steps@[j]).0 as int, p.steps@[j].1 as int))
            == crate::motion::spec_motion_step(x as int, y as int, j)
    &&& (p.steps@.len() > 0 ==> p.step_delay_ms == MOTION_WINDOW_MILLIS as int
        / p.steps@.len() as int)
}

/// Dispatch one decoded client message: a registration mutates the
/// registry (and emits its event); every other variant leaves the
/// registry alone and yields the injection calls to execute.
pub fn client_message_handler(msg: ClientMessage, devices: &mut DeviceMap) -> (acts: Vec<
    InjectionAction,
>)
    requires
        old(devices).wf(),
    ensures
        final(devices).wf(),
        match msg {
            ClientMessage::Device(d) => final(devices)@ == spec_register(
                old(devices)@,
                d.spec_id(),
                d,
            ) && final(devices).events() == spec_register_events(
                old(devices).events(),
                d.spec_id(),
            ) && acts@.len() == 0,
            ClientMessage::MouseRead(r) => final(devices)@ == old(devices)@ && final(devices).events() == old(devices).events() && acts@.len() == 1 && (acts@[0] matches
                InjectionAction::Motion(p) && plan_matches(p, r.spec_x(), r.spec_y())),
            ClientMessage::ButtonActions(v) => final(devices)@ == old(devices)@ && final(devices).events() == old(devices).events() && acts@.len() == v@.len() && forall|i: int|
                0 <= i < v@.len() ==> action_matches(#[trigger] acts@[i], v@[i]@),
            ClientMessage::AxisRead(a) => final(devices)@ == old(devices)@ && final(devices).events() == old(devices).events() && acts@ == seq![
                InjectionAction::GamepadAxis(a.0, a.1),
            ],
            ClientMessage::HatRead(h) => final(devices)@ == old(devices)@ && final(devices).events() == old(devices).events() && acts@ == seq![
                InjectionAction::GamepadHat(h.0, h.1),
            ],
        },
{
    match msg {
        ClientMessage::MouseRead(read) => {
            let plan = plan_motion(&read);
            let mut acts: Vec<InjectionAction> = Vec::new();
            acts.push(InjectionAction::Motion(plan));
            acts
        },
        ClientMessage::ButtonActions(v) => {
            let mut acts: Vec<InjectionAction> = Vec::new();
            let n = v.len();
            let mut i: usize = 0;
            while i < n
                invariant
                    i <= n,
                    n == v@.len(),
                    acts@.len() == i,
                    forall|j: int| 0 <= j < i ==> action_matches(#[trigger] acts@[j], v@[j]@),
                decreases n - i,
            {
                let a: &ButtonAction = &v[i];
                let ia: InjectionAction = match a {
                    ButtonAction::MouseButton(mb, st) => InjectionAction::MouseButton(*mb, *st),
                    ButtonAction::KeyboardButton(KeyboardButton::Sequence(s)) => {
                        InjectionAction::KeySequence(s.clone())
                    },
                    ButtonAction::KeyboardButton(KeyboardButton::SequenceDsl(s)) => {
                        InjectionAction::KeySequenceDsl(s.clone())
                    },
                    ButtonAction::KeyboardButton(KeyboardButton::Key(k)) => {
                        InjectionAction::KeyClick(*k)
                    },
                    ButtonAction::GamepadButton(btn, pressed) => {
                        InjectionAction::GamepadButton(*btn, *pressed)
                    },
                    ButtonAction::CustomButton(CustomCommand::Binary(p)) => {
                        InjectionAction::RunBinary(p.clone())
                    },
                };
                acts.push(ia);
                i += 1;
            }
            acts
        },
        ClientMessage::AxisRead(a) => {
            let mut acts: Vec<InjectionAction> = Vec::new();
            acts.push(InjectionAction::GamepadAxis(a.0, a.1));
            proof {
                assert(acts@ =~= seq![InjectionAction::GamepadAxis(a.0, a.1)]);
            }
            acts
        },
        ClientMessage::HatRead(h) => {
            let mut acts: Vec<InjectionAction> = Vec::new();
            acts.push(InjectionAction::GamepadHat(h.0, h.1));
            proof {
                assert(acts@ =~= seq![InjectionAction::GamepadHat(h.0, h.1)]);
            }
            acts
        },
        ClientMessage::Device(d) => {
            let id = d.id();
            devices.insert(id, d);
            Vec::new()
        },
    }
}

/// One connection's session: its identity and where it stands in the
/// lifecycle. Not shared between connections.
pub struct Session {
    device_id: DeviceId,
    state: SessionState,
}

impl Session {
    /// The identity this session serves, fixed for its lifetime.
    pub closed spec fn spec_id(&self) -> DeviceId {
        self.device_id
    }

    /// Where the session stands in the lifecycle.
    pub closed spec fn spec_state(&self) -> SessionState {
        self.state
    }

    /// A session for a fresh connection: handshake done, activities not
    /// yet started.
    pub fn new(device_id: DeviceId) -> (s: Session)
        ensures
            s.spec_id() == device_id,
            s.spec_state() == SessionState::Opening,
    {
        Session { device_id, state: SessionState::Opening }
    }

    pub fn device_id(&self) -> (id: DeviceId)
        ensures
            id == self.spec_id(),
    {
        self.device_id
    }

    pub fn state(&self) -> (st: SessionState)
        ensures
            st == self.spec_state(),
    {
        self.state
    }

    /// All activities are running: the session is live.
    pub fn start(&mut self)
        requires
            old(self).spec_state() == SessionState::Opening,
        ensures
            final(self).spec_id() == old(self).spec_id(),
            final(self).spec_state() == SessionState::Active,
    {
        self.state = SessionState::Active;
    }

    /// Handle one inbound frame. A pong feeds the watchdog; a ping is
    /// logged and dropped; a close frame raises the exit signal; a
    /// binary payload is decoded, a malformed one dropped with the
    /// session kept open; a text payload is handed back for JSON
    /// decoding.
    pub fn on_frame(&mut self, frame: WsFrame) -> (out: FrameOutcome)
        requires
            old(self).spec_state() == SessionState::Active,
        ensures
            final(self).spec_id() == old(self).spec_id(),
            match frame {
                WsFrame::Pong => out == FrameOutcome::WatchdogReset && final(self).spec_state()
                    == SessionState::Active,
                WsFrame::Ping => out == FrameOutcome::Ignored && final(self).spec_state()
                    == SessionState::Active,
                WsFrame::Close => out == FrameOutcome::ExitRaised && final(self).spec_state()
                    == SessionState::Draining,
                WsFrame::Text(t) => out == FrameOutcome::Text(t) && final(self).spec_state()
                    == SessionState::Active,
                WsFrame::Binary(bb) => final(self).spec_state() == SessionState::Active
                    && (match out {
                    FrameOutcome::Message(m) => spec_decode_client(bb@) == Some(m@),
                    FrameOutcome::Ignored => spec_decode_client(bb@) is None,
                    _ => false,
                }),
            },
    {
        match frame {
            WsFrame::Pong => FrameOutcome::WatchdogReset,
            WsFrame::Ping => FrameOutcome::Ignored,
            WsFrame::Close => {
                self.state = SessionState::Draining;
                FrameOutcome::ExitRaised
            },
            WsFrame::Text(t) => FrameOutcome::Text(t),
            WsFrame::Binary(bb) => match decode_client_message(&bb) {
                Some(m) => FrameOutcome::Message(m),
                None => FrameOutcome::Ignored,
            },
        }
    }

    /// The watchdog window elapsed with no pong: the connection is
    /// dead, raise the exit signal. Raising it again changes nothing.
    pub fn on_pong_timeout(&mut self)
        requires
            old(self).spec_state() == SessionState::Active || old(self).spec_state()
                == SessionState::Draining,
        ensures
            final(self).spec_id() == old(self).spec_id(),
            final(self).spec_state() == SessionState::Draining,
    {
        self.state = SessionState::Draining;
    }

    /// The transport failed on a read: fatal to the session.
    pub fn on_read_error(&mut self)
        requires
            old(self).spec_state() == SessionState::Active || old(self).spec_state()
                == SessionState::Draining,
        ensures
            final(self).spec_id() == old(self).spec_id(),
            final(self).spec_state() == SessionState::Draining,
    {
        self.state = SessionState::Draining;
    }

    /// The outbound writer failed on a send: fatal to the session.
    pub fn on_write_failed(&mut self)
        requires
            old(self).spec_state() == SessionState::Active || old(self).spec_state()
                == SessionState::Draining,
        ensures
            final(self).spec_id() == old(self).spec_id(),
            final(self).spec_state() == SessionState::Draining,
    {
        self.state = SessionState::Draining;
    }

    /// The liveness prober's period elapsed: while the session is
    /// active, enqueue one ping.
    pub fn on_ping_tick(&self) -> (f: Option<OutboundFrame>)
        ensures
            self.spec_state() == SessionState::Active ==> f == Some(OutboundFrame::Ping),
            self.spec_state() != SessionState::Active ==> f is None,
    {
        match self.state {
            SessionState::Active => Some(OutboundFrame::Ping),
            _ => None,
        }
    }

    /// Filter one broadcast server command: encoded for the outbound
    /// queue exactly when it is addressed to this session's device.
    pub fn relay_command(&self, msg: &ServerMessage) -> (r: Option<Vec<u8>>)
        ensures
            match r {
                Some(bytes) => msg.spec_target() == self.spec_id() && bytes@ == enc_server(
                    msg@,
                ),
                None => msg.spec_target() != self.spec_id(),
            },
    {
        let target = msg.target();
        if target == self.device_id {
            Some(encode_server_message(msg))
        } else {
            None
        }
    }

    /// All activities have stopped: the session reaches `Closed` and
    /// its identity leaves the registry, emitting the `Leave` event if
    /// it was registered. This happens once, after draining, never
    /// before.
    pub fn close(&mut self, devices: &mut DeviceMap) -> (prev: Option<Device>)
        requires
            old(self).spec_state() == SessionState::Draining,
            old(devices).wf(),
        ensures
            final(self).spec_id() == old(self).spec_id(),
            final(self).spec_state() == SessionState::Closed,
            final(devices).wf(),
            final(devices)@ == spec_unregister(old(devices)@, old(self).spec_id()),
            !final(devices)@.contains_key(old(self).spec_id()),
            final(devices).events() == spec_unregister_events(
                old(devices).events(),
                old(devices)@,
                old(self).spec_id(),
            ),
            prev == if old(devices)@.contains_key(old(self).spec_id()) {
                Some(old(devices)@[old(self).spec_id()])
            } else {
                None::<Device>
            },
    {
        self.state = SessionState::Closed;
        devices.remove(&self.device_id)
    }
}

} // verus!
