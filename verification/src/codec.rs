//! The compact binary form of the wire messages: little-endian
//! fixed-width integers, length-prefixed sequences, one tag byte per
//! enum variant. Encoding is defined by spec functions over byte
//! sequences; decoding is a spec function too, so the executable
//! encoder and decoder are each pinned to one mathematical function,
//! and decoding an encoding is proved to give the message back.

use vstd::prelude::*;

use crate::button::{Button, CustomButton, MouseButton};
use crate::device::{Device, DeviceId, DeviceView};
use crate::message::{
    AxisRead, ButtonAction, ButtonActionView, ClientMessage, ClientMessageView, CustomCommand,
    CustomCommandView, HatRead, Key, KeyboardButton, KeyboardButtonView, ServerMessage,
    ServerMessageView,
};
use crate::mouse::{MouseButtonState, MouseConfig, MouseRead};

verus! {

// --- encoding, primitive values -------------------------------------

pub open spec fn enc_u8(v: u8) -> Seq<u8> {
    seq![v]
}

pub open spec fn enc_u32(v: u32) -> Seq<u8> {
    seq![
        (v & 0xff) as u8,
        ((v >> 8) & 0xff) as u8,
        ((v >> 16) & 0xff) as u8,
        ((v >> 24) & 0xff) as u8,
    ]
}

pub open spec fn enc_u64(v: u64) -> Seq<u8> {
    enc_u32(v as u32) + enc_u32((v >> 32) as u32)
}

pub open spec fn enc_u128(v: u128) -> Seq<u8> {
    enc_u32(v as u32) + enc_u32((v >> 32) as u32) + enc_u32((v >> 64) as u32) + enc_u32(
        (v >> 96) as u32,
    )
}

/// Signed values are shifted into unsigned range before encoding.
pub open spec fn enc_i32(v: i32) -> Seq<u8> {
    enc_u32((v as int + 0x8000_0000) as u32)
}

pub open spec fn enc_i8(v: i8) -> Seq<u8> {
    seq![(v as int + 0x80) as u8]
}

pub open spec fn enc_bool(v: bool) -> Seq<u8> {
    seq![if v { 1u8 } else { 0u8 }]
}

/// A character is its unicode scalar value.
pub open spec fn enc_char(c: char) -> Seq<u8> {
    enc_u32(c as u32)
}

pub open spec fn enc_chars(s: Seq<char>) -> Seq<u8>
    decreases s.len(),
{
    if s.len() == 0 {
        Seq::empty()
    } else {
        enc_char(s[0]) + enc_chars(s.skip(1))
    }
}

/// A string is its character count followed by each character.
pub open spec fn enc_str(s: Seq<char>) -> Seq<u8> {
    enc_u64(s.len() as u64) + enc_chars(s)
}

// --- decoding, primitive values -------------------------------------
//
// Each decoder takes the remaining input and yields the decoded value
// and the input left over, or nothing if the input does not start with
// a well-formed encoding.

pub open spec fn dec_u8(b: Seq<u8>) -> Option<(u8, Seq<u8>)> {
    if b.len() >= 1 {
        Some((b[0], b.skip(1)))
    } else {
        None
    }
}

pub open spec fn u32_of(b0: u8, b1: u8, b2: u8, b3: u8) -> u32 {
    (b0 as u32) | ((b1 as u32) << 8) | ((b2 as u32) << 16) | ((b3 as u32) << 24)
}

pub open spec fn dec_u32(b: Seq<u8>) -> Option<(u32, Seq<u8>)> {
    if b.len() >= 4 {
        Some((u32_of(b[0], b[1], b[2], b[3]), b.skip(4)))
    } else {
        None
    }
}

pub open spec fn u64_of(lo: u32, hi: u32) -> u64 {
    (lo as u64) | ((hi as u64) << 32)
}

pub open spec fn dec_u64(b: Seq<u8>) -> Option<(u64, Seq<u8>)> {
    match dec_u32(b) {
        Some((lo, r)) => match dec_u32(r) {
            Some((hi, r2)) => Some((u64_of(lo, hi), r2)),
            None => None,
        },
        None => None,
    }
}

pub open spec fn u128_of(p0: u32, p1: u32, p2: u32, p3: u32) -> u128 {
    (p0 as u128) | ((p1 as u128) << 32) | ((p2 as u128) << 64) | ((p3 as u128) << 96)
}

pub open spec fn dec_u128(b: Seq<u8>) -> Option<(u128, Seq<u8>)> {
    match dec_u32(b) {
        Some((p0, r0)) => match dec_u32(r0) {
            Some((p1, r1)) => match dec_u32(r1) {
                Some((p2, r2)) => match dec_u32(r2) {
                    Some((p3, r3)) => Some((u128_of(p0, p1, p2, p3), r3)),
                    None => None,
                },
                None => None,
            },
            None => None,
        },
        None => None,
    }
}

pub open spec fn i32_of(u: u32) -> i32 {
    (u as int - 0x8000_0000) as i32
}

pub open spec fn dec_i32(b: Seq<u8>) -> Option<(i32, Seq<u8>)> {
    match dec_u32(b) {
        Some((u, r)) => Some((i32_of(u), r)),
        None => None,
    }
}

pub open spec fn i8_of(u: u8) -> i8 {
    (u as int - 0x80) as i8
}

pub open spec fn dec_i8(b: Seq<u8>) -> Option<(i8, Seq<u8>)> {
    match dec_u8(b) {
        Some((u, r)) => Some((i8_of(u), r)),
        None => None,
    }
}

pub open spec fn dec_bool(b: Seq<u8>) -> Option<(bool, Seq<u8>)> {
    match dec_u8(b) {
        Some((u, r)) => if u == 0 {
            Some((false, r))
        } else if u == 1 {
            Some((true, r))
        } else {
            None
        },
        None => None,
    }
}

/// The unicode scalar values: what a `char` may hold.
pub open spec fn valid_scalar(v: u32) -> bool {
    v < 0xD800 || (0xE000 <= v && v <= 0x10FFFF)
}

pub open spec fn dec_char(b: Seq<u8>) -> Option<(char, Seq<u8>)> {
    match dec_u32(b) {
        Some((v, r)) => if valid_scalar(v) {
            Some((v as char, r))
        } else {
            None
        },
        None => None,
    }
}

pub open spec fn dec_chars(b: Seq<u8>, n: nat) -> Option<(Seq<char>, Seq<u8>)>
    decreases n,
{
    if n == 0 {
        Some((Seq::empty(), b))
    } else {
        match dec_char(b) {
            Some((c, r)) => match dec_chars(r, (n - 1) as nat) {
                Some((s, r2)) => Some((seq![c] + s, r2)),
                None => None,
            },
            None => None,
        }
    }
}

pub open spec fn dec_str(b: Seq<u8>) -> Option<(Seq<char>, Seq<u8>)> {
    match dec_u64(b) {
        Some((n, r)) => dec_chars(r, n as nat),
        None => None,
    }
}

// --- round trips, primitive values ----------------------------------

pub proof fn lemma_dec_enc_u8(v: u8, rest: Seq<u8>)
    ensures
        dec_u8(enc_u8(v) + rest) == Some((v, rest)),
{
    assert((enc_u8(v) + rest).skip(1) =~= rest);
}

pub proof fn lemma_dec_enc_u32(v: u32, rest: Seq<u8>)
    ensures
        dec_u32(enc_u32(v) + rest) == Some((v, rest)),
{
    let b = enc_u32(v) + rest;
    assert(u32_of(b[0], b[1], b[2], b[3]) == v) by {
        assert(((v & 0xff) as u8 as u32) | (((v >> 8) & 0xff) as u8 as u32) << 8 | (((v >> 16)
            & 0xff) as u8 as u32) << 16 | (((v >> 24) & 0xff) as u8 as u32) << 24 == v)
            by (bit_vector);
    }
    assert(b.skip(4) =~= rest);
}

pub proof fn lemma_dec_enc_u64(v: u64, rest: Seq<u8>)
    ensures
        dec_u64(enc_u64(v) + rest) == Some((v, rest)),
{
    let lo = v as u32;
    let hi = (v >> 32) as u32;
    assert(enc_u64(v) + rest =~= enc_u32(lo) + (enc_u32(hi) + rest));
    lemma_dec_enc_u32(lo, enc_u32(hi) + rest);
    lemma_dec_enc_u32(hi, rest);
    assert(u64_of(lo, hi) == v) by {
        assert(((v as u32) as u64) | ((((v >> 32) as u32) as u64) << 32) == v) by (bit_vector);
    }
}

pub proof fn lemma_dec_enc_u128(v: u128, rest: Seq<u8>)
    ensures
        dec_u128(enc_u128(v) + rest) == Some((v, rest)),
{
    let p0 = v as u32;
    let p1 = (v >> 32) as u32;
    let p2 = (v >> 64) as u32;
    let p3 = (v >> 96) as u32;
    assert(enc_u128(v) + rest =~= enc_u32(p0) + (enc_u32(p1) + (enc_u32(p2) + (enc_u32(p3)
        + rest))));
    lemma_dec_enc_u32(p0, enc_u32(p1) + (enc_u32(p2) + (enc_u32(p3) + rest)));
    lemma_dec_enc_u32(p1, enc_u32(p2) + (enc_u32(p3) + rest));
    lemma_dec_enc_u32(p2, enc_u32(p3) + rest);
    lemma_dec_enc_u32(p3, rest);
    assert(u128_of(p0, p1, p2, p3) == v) by {
        assert(((v as u32) as u128) | ((((v >> 32) as u32) as u128) << 32) | ((((v
            >> 64) as u32) as u128) << 64) | ((((v >> 96) as u32) as u128) << 96) == v)
            by (bit_vector);
    }
}

pub proof fn lemma_dec_enc_i32(v: i32, rest: Seq<u8>)
    ensures
        dec_i32(enc_i32(v) + rest) == Some((v, rest)),
{
    let u = (v as int + 0x8000_0000) as u32;
    lemma_dec_enc_u32(u, rest);
    assert(i32_of(u) == v);
}

pub proof fn lemma_dec_enc_i8(v: i8, rest: Seq<u8>)
    ensures
        dec_i8(enc_i8(v) + rest) == Some((v, rest)),
{
    let u = (v as int + 0x80) as u8;
    lemma_dec_enc_u8(u, rest);
    assert(i8_of(u) == v);
}

pub proof fn lemma_dec_enc_bool(v: bool, rest: Seq<u8>)
    ensures
        dec_bool(enc_bool(v) + rest) == Some((v, rest)),
{
    lemma_dec_enc_u8(if v { 1u8 } else { 0u8 }, rest);
}

pub proof fn lemma_dec_enc_char(c: char, rest: Seq<u8>)
    ensures
        dec_char(enc_char(c) + rest) == Some((c, rest)),
{
    lemma_dec_enc_u32(c as u32, rest);
    assert(valid_scalar(c as u32));
    assert((c as u32) as char == c);
}

pub proof fn lemma_dec_enc_chars(s: Seq<char>, rest: Seq<u8>)
    ensures
        dec_chars(enc_chars(s) + rest, s.len()) == Some((s, rest)),
    decreases s.len(),
{
    if s.len() == 0 {
        assert(enc_chars(s) + rest =~= rest);
        assert(s =~= Seq::<char>::empty());
    } else {
        let tail = s.skip(1);
        assert(enc_chars(s) + rest =~= enc_char(s[0]) + (enc_chars(tail) + rest));
        lemma_dec_enc_char(s[0], enc_chars(tail) + rest);
        lemma_dec_enc_chars(tail, rest);
        assert(seq![s[0]] + tail =~= s);
    }
}

pub proof fn lemma_dec_enc_str(s: Seq<char>, rest: Seq<u8>)
    requires
        s.len() < 0x1_0000_0000_0000_0000,
    ensures
        dec_str(enc_str(s) + rest) == Some((s, rest)),
{
    let n = s.len() as u64;
    assert(enc_str(s) + rest =~= enc_u64(n) + (enc_chars(s) + rest));
    lemma_dec_enc_u64(n, enc_chars(s) + rest);
    lemma_dec_enc_chars(s, rest);
    assert(n as nat == s.len());
}

// --- encoding and decoding, message parts ---------------------------
//
// Each enum variant is one tag byte followed by its payload.

pub open spec fn mouse_button_tag(b: MouseButton) -> u8 {
    match b {
        MouseButton::Left => 0,
        MouseButton::Middle => 1,
        MouseButton::Right => 2,
        MouseButton::Back => 3,
        MouseButton::Forward => 4,
        MouseButton::ScrollUp => 5,
        MouseButton::ScrollDown => 6,
        MouseButton::ScrollLeft => 7,
        MouseButton::ScrollRight => 8,
    }
}

pub open spec fn enc_mouse_button(b: MouseButton) -> Seq<u8> {
    enc_u8(mouse_button_tag(b))
}

pub open spec fn dec_mouse_button(b: Seq<u8>) -> Option<(MouseButton, Seq<u8>)> {
    match dec_u8(b) {
        Some((t, r)) => if t == 0 {
            Some((MouseButton::Left, r))
        } else if t == 1 {
            Some((MouseButton::Middle, r))
        } else if t == 2 {
            Some((MouseButton::Right, r))
        } else if t == 3 {
            Some((MouseButton::Back, r))
        } else if t == 4 {
            Some((MouseButton::Forward, r))
        } else if t == 5 {
            Some((MouseButton::ScrollUp, r))
        } else if t == 6 {
            Some((MouseButton::ScrollDown, r))
        } else if t == 7 {
            Some((MouseButton::ScrollLeft, r))
        } else if t == 8 {
            Some((MouseButton::ScrollRight, r))
        } else {
            None
        },
        None => None,
    }
}

pub open spec fn state_tag(s: MouseButtonState) -> u8 {
    match s {
        MouseButtonState::Up => 0,
        MouseButtonState::Down => 1,
    }
}

pub open spec fn enc_state(s: MouseButtonState) -> Seq<u8> {
    enc_u8(state_tag(s))
}

pub open spec fn dec_state(b: Seq<u8>) -> Option<(MouseButtonState, Seq<u8>)> {
    match dec_u8(b) {
        Some((t, r)) => if t == 0 {
            Some((MouseButtonState::Up, r))
        } else if t == 1 {
            Some((MouseButtonState::Down, r))
        } else {
            None
        },
        None => None,
    }
}

pub open spec fn key_tag(k: Key) -> u8 {
    match k {
        Key::Alt => 0,
        Key::Backspace => 1,
        Key::Control => 2,
        Key::Escape => 3,
        Key::Meta => 4,
        Key::Return => 5,
        Key::Shift => 6,
        Key::Space => 7,
        Key::Tab => 8,
    }
}

pub open spec fn enc_key(k: Key) -> Seq<u8> {
    enc_u8(key_tag(k))
}

pub open spec fn dec_key(b: Seq<u8>) -> Option<(Key, Seq<u8>)> {
    match dec_u8(b) {
        Some((t, r)) => if t == 0 {
            Some((Key::Alt, r))
        } else if t == 1 {
            Some((Key::Backspace, r))
        } else if t == 2 {
            Some((Key::Control, r))
        } else if t == 3 {
            Some((Key::Escape, r))
        } else if t == 4 {
            Some((Key::Meta, r))
        } else if t == 5 {
            Some((Key::Return, r))
        } else if t == 6 {
            Some((Key::Shift, r))
        } else if t == 7 {
            Some((Key::Space, r))
        } else if t == 8 {
            Some((Key::Tab, r))
        } else {
            None
        },
        None => None,
    }
}

pub open spec fn enc_layout_button(b: Button) -> Seq<u8> {
    match b {
        Button::MouseButton(mb) => enc_u8(0) + enc_mouse_button(mb),
        Button::CustomButton(_) => enc_u8(1),
    }
}

pub open spec fn dec_layout_button(b: Seq<u8>) -> Option<(Button, Seq<u8>)> {
    match dec_u8(b) {
        Some((t, r)) => if t == 0 {
            match dec_mouse_button(r) {
                Some((mb, r2)) => Some((Button::MouseButton(mb), r2)),
                None => None,
            }
        } else if t == 1 {
            Some((Button::CustomButton(CustomButton), r))
        } else {
            None
        },
        None => None,
    }
}

pub open spec fn enc_opt_config(c: Option<MouseConfig>) -> Seq<u8> {
    match c {
        None => enc_u8(0),
        Some(cfg) => enc_u8(1) + enc_i8(cfg.x_sen) + enc_i8(cfg.y_sen),
    }
}

pub open spec fn dec_opt_config(b: Seq<u8>) -> Option<(Option<MouseConfig>, Seq<u8>)> {
    match dec_u8(b) {
        Some((t, r)) => if t == 0 {
            Some((None::<MouseConfig>, r))
        } else if t == 1 {
            match dec_i8(r) {
                Some((x, r2)) => match dec_i8(r2) {
                    Some((y, r3)) => Some(
                        (Some(MouseConfig { x_sen: x, y_sen: y }), r3),
                    ),
                    None => None,
                },
                None => None,
            }
        } else {
            None
        },
        None => None,
    }
}

pub open spec fn enc_keyboard(k: KeyboardButtonView) -> Seq<u8> {
    match k {
        KeyboardButtonView::Sequence(s) => enc_u8(0) + enc_str(s),
        KeyboardButtonView::SequenceDsl(s) => enc_u8(1) + enc_str(s),
        KeyboardButtonView::Key(key) => enc_u8(2) + enc_key(key),
    }
}

pub open spec fn dec_keyboard(b: Seq<u8>) -> Option<(KeyboardButtonView, Seq<u8>)> {
    match dec_u8(b) {
        Some((t, r)) => if t == 0 {
            match dec_str(r) {
                Some((s, r2)) => Some((KeyboardButtonView::Sequence(s), r2)),
                None => None,
            }
        } else if t == 1 {
            match dec_str(r) {
                Some((s, r2)) => Some((KeyboardButtonView::SequenceDsl(s), r2)),
                None => None,
            }
        } else if t == 2 {
            match dec_key(r) {
                Some((k, r2)) => Some((KeyboardButtonView::Key(k), r2)),
                None => None,
            }
        } else {
            None
        },
        None => None,
    }
}

pub open spec fn enc_custom(c: CustomCommandView) -> Seq<u8> {
    match c {
        CustomCommandView::Binary(p) => enc_u8(0) + enc_str(p),
    }
}

pub open spec fn dec_custom(b: Seq<u8>) -> Option<(CustomCommandView, Seq<u8>)> {
    match dec_u8(b) {
        Some((t, r)) => if t == 0 {
            match dec_str(r) {
                Some((p, r2)) => Some((CustomCommandView::Binary(p), r2)),
                None => None,
            }
        } else {
            None
        },
        None => None,
    }
}

pub open spec fn enc_action(a: ButtonActionView) -> Seq<u8> {
    match a {
        ButtonActionView::MouseButton(mb, st) => enc_u8(0) + enc_mouse_button(mb) + enc_state(
            st,
        ),
        ButtonActionView::KeyboardButton(k) => enc_u8(1) + enc_keyboard(k),
        ButtonActionView::GamepadButton(btn, pressed) => enc_u8(2) + enc_u8(btn) + enc_bool(
            pressed,
        ),
        ButtonActionView::CustomButton(c) => enc_u8(3) + enc_custom(c),
    }
}

pub open spec fn dec_action(b: Seq<u8>) -> Option<(ButtonActionView, Seq<u8>)> {
    match dec_u8(b) {
        Some((t, r)) => if t == 0 {
            match dec_mouse_button(r) {
                Some((mb, r2)) => match dec_state(r2) {
                    Some((st, r3)) => Some((ButtonActionView::MouseButton(mb, st), r3)),
                    None => None,
                },
                None => None,
            }
        } else if t == 1 {
            match dec_keyboard(r) {
                Some((k, r2)) => Some((ButtonActionView::KeyboardButton(k), r2)),
                None => None,
            }
        } else if t == 2 {
            match dec_u8(r) {
                Some((btn, r2)) => match dec_bool(r2) {
                    Some((p, r3)) => Some((ButtonActionView::GamepadButton(btn, p), r3)),
                    None => None,
                },
                None => None,
            }
        } else if t == 3 {
            match dec_custom(r) {
                Some((c, r2)) => Some((ButtonActionView::CustomButton(c), r2)),
                None => None,
            }
        } else {
            None
        },
        None => None,
    }
}

// --- encoding and decoding, sequences of parts ----------------------

pub open spec fn enc_buttons(s: Seq<Button>) -> Seq<u8>
    decreases s.len(),
{
    if s.len() == 0 {
        Seq::empty()
    } else {
        enc_layout_button(s[0]) + enc_buttons(s.skip(1))
    }
}

pub open spec fn dec_buttons(b: Seq<u8>, n: nat) -> Option<(Seq<Button>, Seq<u8>)>
    decreases n,
{
    if n == 0 {
        Some((Seq::empty(), b))
    } else {
        match dec_layout_button(b) {
            Some((v, r)) => match dec_buttons(r, (n - 1) as nat) {
                Some((s, r2)) => Some((seq![v] + s, r2)),
                None => None,
            },
            None => None,
        }
    }
}

pub open spec fn enc_button_list(s: Seq<Button>) -> Seq<u8> {
    enc_u64(s.len() as u64) + enc_buttons(s)
}

pub open spec fn dec_button_list(b: Seq<u8>) -> Option<(Seq<Button>, Seq<u8>)> {
    match dec_u64(b) {
        Some((n, r)) => dec_buttons(r, n as nat),
        None => None,
    }
}

pub open spec fn enc_actions(s: Seq<ButtonActionView>) -> Seq<u8>
    decreases s.len(),
{
    if s.len() == 0 {
        Seq::empty()
    } else {
        enc_action(s[0]) + enc_actions(s.skip(1))
    }
}

pub open spec fn dec_actions(b: Seq<u8>, n: nat) -> Option<(Seq<ButtonActionView>, Seq<u8>)>
    decreases n,
{
    if n == 0 {
        Some((Seq::empty(), b))
    } else {
        match dec_action(b) {
            Some((v, r)) => match dec_actions(r, (n - 1) as nat) {
                Some((s, r2)) => Some((seq![v] + s, r2)),
                None => None,
            },
            None => None,
        }
    }
}

pub open spec fn enc_action_list(s: Seq<ButtonActionView>) -> Seq<u8> {
    enc_u64(s.len() as u64) + enc_actions(s)
}

pub open spec fn dec_action_list(b: Seq<u8>) -> Option<(Seq<ButtonActionView>, Seq<u8>)> {
    match dec_u64(b) {
        Some((n, r)) => dec_actions(r, n as nat),
        None => None,
    }
}

pub open spec fn enc_update_pair(p: (DeviceId, Seq<ButtonActionView>)) -> Seq<u8> {
    enc_u128(p.0.0) + enc_action_list(p.1)
}

pub open spec fn dec_update_pair(b: Seq<u8>) -> Option<
    ((DeviceId, Seq<ButtonActionView>), Seq<u8>),
> {
    match dec_u128(b) {
        Some((id, r)) => match dec_action_list(r) {
            Some((acts, r2)) => Some(((DeviceId(id), acts), r2)),
            None => None,
        },
        None => None,
    }
}

pub open spec fn enc_update_pairs(s: Seq<(DeviceId, Seq<ButtonActionView>)>) -> Seq<u8>
    decreases s.len(),
{
    if s.len() == 0 {
        Seq::empty()
    } else {
        enc_update_pair(s[0]) + enc_update_pairs(s.skip(1))
    }
}

pub open spec fn dec_update_pairs(b: Seq<u8>, n: nat) -> Option<
    (Seq<(DeviceId, Seq<ButtonActionView>)>, Seq<u8>),
>
    decreases n,
{
    if n == 0 {
        Some((Seq::empty(), b))
    } else {
        match dec_update_pair(b) {
            Some((v, r)) => match dec_update_pairs(r, (n - 1) as nat) {
                Some((s, r2)) => Some((seq![v] + s, r2)),
                None => None,
            },
            None => None,
        }
    }
}

// --- encoding and decoding, whole messages --------------------------

pub open spec fn enc_device(d: DeviceView) -> Seq<u8> {
    enc_u128(d.id.0) + enc_str(d.name) + enc_opt_config(d.mouse_config) + enc_button_list(
        d.buttons,
    )
}

pub open spec fn dec_device(b: Seq<u8>) -> Option<(DeviceView, Seq<u8>)> {
    match dec_u128(b) {
        Some((id, r)) => match dec_str(r) {
            Some((name, r2)) => match dec_opt_config(r2) {
                Some((cfg, r3)) => match dec_button_list(r3) {
                    Some((buttons, r4)) => Some(
                        (
                            DeviceView {
                                id: DeviceId(id),
                                name,
                                mouse_config: cfg,
                                buttons,
                            },
                            r4,
                        ),
                    ),
                    None => None,
                },
                None => None,
            },
            None => None,
        },
        None => None,
    }
}

pub open spec fn enc_client(m: ClientMessageView) -> Seq<u8> {
    match m {
        ClientMessageView::MouseRead(r) => enc_u8(0) + enc_i32(r.x_read) + enc_i32(r.y_read),
        ClientMessageView::ButtonActions(acts) => enc_u8(1) + enc_action_list(acts),
        ClientMessageView::AxisRead(a) => enc_u8(2) + enc_u8(a.0) + enc_i32(a.1),
        ClientMessageView::HatRead(h) => enc_u8(3) + enc_u8(h.0) + enc_i32(h.1),
        ClientMessageView::Device(d) => enc_u8(4) + enc_device(d),
    }
}

pub open spec fn dec_client(b: Seq<u8>) -> Option<(ClientMessageView, Seq<u8>)> {
    match dec_u8(b) {
        Some((t, r)) => if t == 0 {
            match dec_i32(r) {
                Some((x, r2)) => match dec_i32(r2) {
                    Some((y, r3)) => Some(
                        (
                            ClientMessageView::MouseRead(
                                MouseRead { x_read: x, y_read: y },
                            ),
                            r3,
                        ),
                    ),
                    None => None,
                },
                None => None,
            }
        } else if t == 1 {
            match dec_action_list(r) {
                Some((acts, r2)) => Some((ClientMessageView::ButtonActions(acts), r2)),
                None => None,
            }
        } else if t == 2 {
            match dec_u8(r) {
                Some((axis, r2)) => match dec_i32(r2) {
                    Some((v, r3)) => Some(
                        (ClientMessageView::AxisRead(AxisRead(axis, v)), r3),
                    ),
                    None => None,
                },
                None => None,
            }
        } else if t == 3 {
            match dec_u8(r) {
                Some((hat, r2)) => match dec_i32(r2) {
                    Some((v, r3)) => Some(
                        (ClientMessageView::HatRead(HatRead(hat, v)), r3),
                    ),
                    None => None,
                },
                None => None,
            }
        } else if t == 4 {
            match dec_device(r) {
                Some((d, r2)) => Some((ClientMessageView::Device(d), r2)),
                None => None,
            }
        } else {
            None
        },
        None => None,
    }
}

/// What decoding a whole binary frame yields: the message, provided the
/// frame is exactly one well-formed encoding with nothing left over.
pub open spec fn spec_decode_client(b: Seq<u8>) -> Option<ClientMessageView> {
    match dec_client(b) {
        Some((m, r)) => if r.len() == 0 {
            Some(m)
        } else {
            None
        },
        None => None,
    }
}

pub open spec fn enc_server(m: ServerMessageView) -> Seq<u8> {
    match m {
        ServerMessageView::UpdateDevice(id, pairs) => enc_u8(0) + enc_u128(id.0) + enc_u64(
            pairs.len() as u64,
        ) + enc_update_pairs(pairs),
        ServerMessageView::RestartDevice(id) => enc_u8(1) + enc_u128(id.0),
        ServerMessageView::ClearCredentials(id) => enc_u8(2) + enc_u128(id.0),
    }
}

pub open spec fn dec_server(b: Seq<u8>) -> Option<(ServerMessageView, Seq<u8>)> {
    match dec_u8(b) {
        Some((t, r)) => if t == 0 {
            match dec_u128(r) {
                Some((id, r2)) => match dec_u64(r2) {
                    Some((n, r3)) => match dec_update_pairs(r3, n as nat) {
                        Some((pairs, r4)) => Some(
                            (ServerMessageView::UpdateDevice(DeviceId(id), pairs), r4),
                        ),
                        None => None,
                    },
                    None => None,
                },
                None => None,
            }
        } else if t == 1 {
            match dec_u128(r) {
                Some((id, r2)) => Some(
                    (ServerMessageView::RestartDevice(DeviceId(id)), r2),
                ),
                None => None,
            }
        } else if t == 2 {
            match dec_u128(r) {
                Some((id, r2)) => Some(
                    (ServerMessageView::ClearCredentials(DeviceId(id)), r2),
                ),
                None => None,
            }
        } else {
            None
        },
        None => None,
    }
}

// --- size limits for round trips ------------------------------------
//
// Length prefixes are 64 bits wide, so a round trip asks every nested
// sequence to fit; every value built from real `Vec`s and `String`s
// does.

pub open spec fn fits_u64(n: nat) -> bool {
    n < 0x1_0000_0000_0000_0000
}

pub open spec fn wf_keyboard_view(k: KeyboardButtonView) -> bool {
    match k {
        KeyboardButtonView::Sequence(s) => fits_u64(s.len()),
        KeyboardButtonView::SequenceDsl(s) => fits_u64(s.len()),
        KeyboardButtonView::Key(_) => true,
    }
}

pub open spec fn wf_action_view(a: ButtonActionView) -> bool {
    match a {
        ButtonActionView::KeyboardButton(k) => wf_keyboard_view(k),
        ButtonActionView::CustomButton(CustomCommandView::Binary(p)) => fits_u64(p.len()),
        _ => true,
    }
}

pub open spec fn wf_actions_view(s: Seq<ButtonActionView>) -> bool {
    fits_u64(s.len()) && forall|i: int| 0 <= i < s.len() ==> wf_action_view(#[trigger] s[i])
}

pub open spec fn wf_device_view(d: DeviceView) -> bool {
    fits_u64(d.name.len()) && fits_u64(d.buttons.len())
}

pub open spec fn wf_client_view(m: ClientMessageView) -> bool {
    match m {
        ClientMessageView::ButtonActions(acts) => wf_actions_view(acts),
        ClientMessageView::Device(d) => wf_device_view(d),
        _ => true,
    }
}

pub open spec fn wf_server_view(m: ServerMessageView) -> bool {
    match m {
        ServerMessageView::UpdateDevice(_, pairs) => fits_u64(pairs.len()) && forall|i: int|
            0 <= i < pairs.len() ==> wf_actions_view((#[trigger] pairs[i]).1),
        _ => true,
    }
}

// --- round trips, message parts -------------------------------------

pub proof fn lemma_dec_enc_mouse_button(v: MouseButton, rest: Seq<u8>)
    ensures
        dec_mouse_button(enc_mouse_button(v) + rest) == Some((v, rest)),
{
    lemma_dec_enc_u8(mouse_button_tag(v), rest);
}

pub proof fn lemma_dec_enc_state(v: MouseButtonState, rest: Seq<u8>)
    ensures
        dec_state(enc_state(v) + rest) == Some((v, rest)),
{
    lemma_dec_enc_u8(state_tag(v), rest);
}

pub proof fn lemma_dec_enc_key(v: Key, rest: Seq<u8>)
    ensures
        dec_key(enc_key(v) + rest) == Some((v, rest)),
{
    lemma_dec_enc_u8(key_tag(v), rest);
}

pub proof fn lemma_dec_enc_layout_button(v: Button, rest: Seq<u8>)
    ensures
        dec_layout_button(enc_layout_button(v) + rest) == Some((v, rest)),
{
    match v {
        Button::MouseButton(mb) => {
            assert(enc_layout_button(v) + rest =~= enc_u8(0) + (enc_mouse_button(mb) + rest));
            lemma_dec_enc_u8(0, enc_mouse_button(mb) + rest);
            lemma_dec_enc_mouse_button(mb, rest);
        },
        Button::CustomButton(c) => {
            lemma_dec_enc_u8(1, rest);
        },
    }
}

pub proof fn lemma_dec_enc_opt_config(v: Option<MouseConfig>, rest: Seq<u8>)
    ensures
        dec_opt_config(enc_opt_config(v) + rest) == Some((v, rest)),
{
    match v {
        None => {
            lemma_dec_enc_u8(0, rest);
        },
        Some(cfg) => {
            assert(enc_opt_config(v) + rest =~= enc_u8(1) + (enc_i8(cfg.x_sen) + (enc_i8(
                cfg.y_sen,
            ) + rest)));
            lemma_dec_enc_u8(1, enc_i8(cfg.x_sen) + (enc_i8(cfg.y_sen) + rest));
            lemma_dec_enc_i8(cfg.x_sen, enc_i8(cfg.y_sen) + rest);
            lemma_dec_enc_i8(cfg.y_sen, rest);
        },
    }
}

pub proof fn lemma_dec_enc_keyboard(v: KeyboardButtonView, rest: Seq<u8>)
    requires
        wf_keyboard_view(v),
    ensures
        dec_keyboard(enc_keyboard(v) + rest) == Some((v, rest)),
{
    match v {
        KeyboardButtonView::Sequence(s) => {
            assert(enc_keyboard(v) + rest =~= enc_u8(0) + (enc_str(s) + rest));
            lemma_dec_enc_u8(0, enc_str(s) + rest);
            lemma_dec_enc_str(s, rest);
        },
        KeyboardButtonView::SequenceDsl(s) => {
            assert(enc_keyboard(v) + rest =~= enc_u8(1) + (enc_str(s) + rest));
            lemma_dec_enc_u8(1, enc_str(s) + rest);
            lemma_dec_enc_str(s, rest);
        },
        KeyboardButtonView::Key(k) => {
            assert(enc_keyboard(v) + rest =~= enc_u8(2) + (enc_key(k) + rest));
            lemma_dec_enc_u8(2, enc_key(k) + rest);
            lemma_dec_enc_key(k, rest);
        },
    }
}

pub proof fn lemma_dec_enc_custom(v: CustomCommandView, rest: Seq<u8>)
    requires
        v matches CustomCommandView::Binary(p) ==> fits_u64(p.len()),
    ensures
        dec_custom(enc_custom(v) + rest) == Some((v, rest)),
{
    match v {
        CustomCommandView::Binary(p) => {
            assert(enc_custom(v) + rest =~= enc_u8(0) + (enc_str(p) + rest));
            lemma_dec_enc_u8(0, enc_str(p) + rest);
            lemma_dec_enc_str(p, rest);
        },
    }
}

pub proof fn lemma_dec_enc_action(v: ButtonActionView, rest: Seq<u8>)
    requires
        wf_action_view(v),
    ensures
        dec_action(enc_action(v) + rest) == Some((v, rest)),
{
    match v {
        ButtonActionView::MouseButton(mb, st) => {
            assert(enc_action(v) + rest =~= enc_u8(0) + (enc_mouse_button(mb) + (enc_state(st)
                + rest)));
            lemma_dec_enc_u8(0, enc_mouse_button(mb) + (enc_state(st) + rest));
            lemma_dec_enc_mouse_button(mb, enc_state(st) + rest);
            lemma_dec_enc_state(st, rest);
        },
        ButtonActionView::KeyboardButton(k) => {
            assert(enc_action(v) + rest =~= enc_u8(1) + (enc_keyboard(k) + rest));
            lemma_dec_enc_u8(1, enc_keyboard(k) + rest);
            lemma_dec_enc_keyboard(k, rest);
        },
        ButtonActionView::GamepadButton(btn, pressed) => {
            assert(enc_action(v) + rest =~= enc_u8(2) + (enc_u8(btn) + (enc_bool(pressed)
                + rest)));
            lemma_dec_enc_u8(2, enc_u8(btn) + (enc_bool(pressed) + rest));
            lemma_dec_enc_u8(btn, enc_bool(pressed) + rest);
            lemma_dec_enc_bool(pressed, rest);
        },
        ButtonActionView::CustomButton(c) => {
            assert(enc_action(v) + rest =~= enc_u8(3) + (enc_custom(c) + rest));
            lemma_dec_enc_u8(3, enc_custom(c) + rest);
            lemma_dec_enc_custom(c, rest);
        },
    }
}

pub proof fn lemma_dec_enc_buttons(s: Seq<Button>, rest: Seq<u8>)
    ensures
        dec_buttons(enc_buttons(s) + rest, s.len()) == Some((s, rest)),
    decreases s.len(),
{
    if s.len() == 0 {
        assert(enc_buttons(s) + rest =~= rest);
        assert(s =~= Seq::<Button>::empty());
    } else {
        let tail = s.skip(1);
        assert(enc_buttons(s) + rest =~= enc_layout_button(s[0]) + (enc_buttons(tail) + rest));
        lemma_dec_enc_layout_button(s[0], enc_buttons(tail) + rest);
        lemma_dec_enc_buttons(tail, rest);
        assert(seq![s[0]] + tail =~= s);
    }
}

pub proof fn lemma_dec_enc_button_list(s: Seq<Button>, rest: Seq<u8>)
    requires
        fits_u64(s.len()),
    ensures
        dec_button_list(enc_button_list(s) + rest) == Some((s, rest)),
{
    let n = s.len() as u64;
    assert(enc_button_list(s) + rest =~= enc_u64(n) + (enc_buttons(s) + rest));
    lemma_dec_enc_u64(n, enc_buttons(s) + rest);
    lemma_dec_enc_buttons(s, rest);
    assert(n as nat == s.len());
}

pub proof fn lemma_dec_enc_actions(s: Seq<ButtonActionView>, rest: Seq<u8>)
    requires
        forall|i: int| 0 <= i < s.len() ==> wf_action_view(#[trigger] s[i]),
    ensures
        dec_actions(enc_actions(s) + rest, s.len()) == Some((s, rest)),
    decreases s.len(),
{
    if s.len() == 0 {
        assert(enc_actions(s) + rest =~= rest);
        assert(s =~= Seq::<ButtonActionView>::empty());
    } else {
        let tail = s.skip(1);
        assert(enc_actions(s) + rest =~= enc_action(s[0]) + (enc_actions(tail) + rest));
        lemma_dec_enc_action(s[0], enc_actions(tail) + rest);
        assert(forall|i: int| 0 <= i < tail.len() ==> wf_action_view(#[trigger] tail[i]));
        lemma_dec_enc_actions(tail, rest);
        assert(seq![s[0]] + tail =~= s);
    }
}

pub proof fn lemma_dec_enc_action_list(s: Seq<ButtonActionView>, rest: Seq<u8>)
    requires
        wf_actions_view(s),
    ensures
        dec_action_list(enc_action_list(s) + rest) == Some((s, rest)),
{
    let n = s.len() as u64;
    assert(enc_action_list(s) + rest =~= enc_u64(n) + (enc_actions(s) + rest));
    lemma_dec_enc_u64(n, enc_actions(s) + rest);
    lemma_dec_enc_actions(s, rest);
    assert(n as nat == s.len());
}

pub proof fn lemma_dec_enc_update_pair(p: (DeviceId, Seq<ButtonActionView>), rest: Seq<u8>)
    requires
        wf_actions_view(p.1),
    ensures
        dec_update_pair(enc_update_pair(p) + rest) == Some((p, rest)),
{
    assert(enc_update_pair(p) + rest =~= enc_u128(p.0.0) + (enc_action_list(p.1) + rest));
    lemma_dec_enc_u128(p.0.0, enc_action_list(p.1) + rest);
    lemma_dec_enc_action_list(p.1, rest);
    assert((DeviceId(p.0.0), p.1) == p);
}

#[verifier::rlimit(100)]
#[verifier::spinoff_prover]
pub proof fn lemma_dec_enc_update_pairs(
    s: Seq<(DeviceId, Seq<ButtonActionView>)>,
    rest: Seq<u8>,
)
    requires
        forall|i: int| 0 <= i < s.len() ==> wf_actions_view((#[trigger] s[i]).1),
    ensures
        dec_update_pairs(enc_update_pairs(s) + rest, s.len()) == Some((s, rest)),
    decreases s.len(),
{
    if s.len() == 0 {
        assert(enc_update_pairs(s) + rest =~= rest);
        assert(s =~= Seq::<(DeviceId, Seq<ButtonActionView>)>::empty());
    } else {
        let tail = s.skip(1);
        assert(enc_update_pairs(s) + rest =~= enc_update_pair(s[0]) + (enc_update_pairs(tail)
            + rest));
        lemma_dec_enc_update_pair(s[0], enc_update_pairs(tail) + rest);
        assert(forall|i: int|
            0 <= i < tail.len() ==> wf_actions_view((#[trigger] tail[i]).1));
        lemma_dec_enc_update_pairs(tail, rest);
        assert(seq![s[0]] + tail =~= s);
    }
}

pub proof fn lemma_dec_enc_device(d: DeviceView, rest: Seq<u8>)
    requires
        wf_device_view(d),
    ensures
        dec_device(enc_device(d) + rest) == Some((d, rest)),
{
    assert(enc_device(d) + rest =~= enc_u128(d.id.0) + (enc_str(d.name) + (enc_opt_config(
        d.mouse_config,
    ) + (enc_button_list(d.buttons) + rest))));
    lemma_dec_enc_u128(
        d.id.0,
        enc_str(d.name) + (enc_opt_config(d.mouse_config) + (enc_button_list(d.buttons)
            + rest)),
    );
    lemma_dec_enc_str(
        d.name,
        enc_opt_config(d.mouse_config) + (enc_button_list(d.buttons) + rest),
    );
    lemma_dec_enc_opt_config(d.mouse_config, enc_button_list(d.buttons) + rest);
    lemma_dec_enc_button_list(d.buttons, rest);
    assert((DeviceView {
        id: DeviceId(d.id.0),
        name: d.name,
        mouse_config: d.mouse_config,
        buttons: d.buttons,
    }) == d);
}

proof fn lemma_dec_enc_client_mouse_read(r: MouseRead, rest: Seq<u8>)
    ensures
        dec_client(enc_client(ClientMessageView::MouseRead(r)) + rest) == Some(
            (ClientMessageView::MouseRead(r), rest),
        ),
{
    let m = ClientMessageView::MouseRead(r);
    assert(enc_client(m) + rest =~= enc_u8(0) + (enc_i32(r.x_read) + (enc_i32(r.y_read)
        + rest)));
    lemma_dec_enc_u8(0, enc_i32(r.x_read) + (enc_i32(r.y_read) + rest));
    lemma_dec_enc_i32(r.x_read, enc_i32(r.y_read) + rest);
    lemma_dec_enc_i32(r.y_read, rest);
    assert((MouseRead { x_read: r.x_read, y_read: r.y_read }) == r);
}

proof fn lemma_dec_enc_client_actions(acts: Seq<ButtonActionView>, rest: Seq<u8>)
    requires
        wf_actions_view(acts),
    ensures
        dec_client(enc_client(ClientMessageView::ButtonActions(acts)) + rest) == Some(
            (ClientMessageView::ButtonActions(acts), rest),
        ),
{
    let m = ClientMessageView::ButtonActions(acts);
    assert(enc_client(m) + rest =~= enc_u8(1) + (enc_action_list(acts) + rest));
    lemma_dec_enc_u8(1, enc_action_list(acts) + rest);
    lemma_dec_enc_action_list(acts, rest);
}

proof fn lemma_dec_enc_client_axis(a: AxisRead, rest: Seq<u8>)
    ensures
        dec_client(enc_client(ClientMessageView::AxisRead(a)) + rest) == Some(
            (ClientMessageView::AxisRead(a), rest),
        ),
{
    let m = ClientMessageView::AxisRead(a);
    assert(enc_client(m) + rest =~= enc_u8(2) + (enc_u8(a.0) + (enc_i32(a.1) + rest)));
    lemma_dec_enc_u8(2, enc_u8(a.0) + (enc_i32(a.1) + rest));
    lemma_dec_enc_u8(a.0, enc_i32(a.1) + rest);
    lemma_dec_enc_i32(a.1, rest);
    assert(AxisRead(a.0, a.1) == a);
}

proof fn lemma_dec_enc_client_hat(h: HatRead, rest: Seq<u8>)
    ensures
        dec_client(enc_client(ClientMessageView::HatRead(h)) + rest) == Some(
            (ClientMessageView::HatRead(h), rest),
        ),
{
    let m = ClientMessageView::HatRead(h);
    assert(enc_client(m) + rest =~= enc_u8(3) + (enc_u8(h.0) + (enc_i32(h.1) + rest)));
    lemma_dec_enc_u8(3, enc_u8(h.0) + (enc_i32(h.1) + rest));
    lemma_dec_enc_u8(h.0, enc_i32(h.1) + rest);
    lemma_dec_enc_i32(h.1, rest);
    assert(HatRead(h.0, h.1) == h);
}

proof fn lemma_dec_enc_client_device(d: DeviceView, rest: Seq<u8>)
    requires
        wf_device_view(d),
    ensures
        dec_client(enc_client(ClientMessageView::Device(d)) + rest) == Some(
            (ClientMessageView::Device(d), rest),
        ),
{
    let m = ClientMessageView::Device(d);
    assert(enc_client(m) + rest =~= enc_u8(4) + (enc_device(d) + rest));
    lemma_dec_enc_u8(4, enc_device(d) + rest);
    lemma_dec_enc_device(d, rest);
}

pub proof fn lemma_dec_enc_client(m: ClientMessageView, rest: Seq<u8>)
    requires
        wf_client_view(m),
    ensures
        dec_client(enc_client(m) + rest) == Some((m, rest)),
{
    match m {
        ClientMessageView::MouseRead(r) => lemma_dec_enc_client_mouse_read(r, rest),
        ClientMessageView::ButtonActions(acts) => lemma_dec_enc_client_actions(acts, rest),
        ClientMessageView::AxisRead(a) => lemma_dec_enc_client_axis(a, rest),
        ClientMessageView::HatRead(h) => lemma_dec_enc_client_hat(h, rest),
        ClientMessageView::Device(d) => lemma_dec_enc_client_device(d, rest),
    }
}

/// A well-formed binary frame decodes to exactly the message that was
/// encoded: a malformed frame is the only thing the decoder rejects.
pub proof fn lemma_client_round_trip(m: ClientMessageView)
    requires
        wf_client_view(m),
    ensures
        spec_decode_client(enc_client(m)) == Some(m),
{
    lemma_dec_enc_client(m, Seq::empty());
    assert(enc_client(m) + Seq::<u8>::empty() =~= enc_client(m));
}

#[verifier::rlimit(100)]
#[verifier::spinoff_prover]
proof fn lemma_dec_enc_server_update(
    id: DeviceId,
    pairs: Seq<(DeviceId, Seq<ButtonActionView>)>,
    rest: Seq<u8>,
)
    requires
        fits_u64(pairs.len()),
        forall|i: int| 0 <= i < pairs.len() ==> wf_actions_view((#[trigger] pairs[i]).1),
    ensures
        dec_server(enc_server(ServerMessageView::UpdateDevice(id, pairs)) + rest) == Some(
            (ServerMessageView::UpdateDevice(id, pairs), rest),
        ),
{
    let m = ServerMessageView::UpdateDevice(id, pairs);
    let n = pairs.len() as u64;
    assert(enc_server(m) + rest =~= enc_u8(0) + (enc_u128(id.0) + (enc_u64(n) + (
    enc_update_pairs(pairs) + rest))));
    lemma_dec_enc_u8(0, enc_u128(id.0) + (enc_u64(n) + (enc_update_pairs(pairs) + rest)));
    lemma_dec_enc_u128(id.0, enc_u64(n) + (enc_update_pairs(pairs) + rest));
    lemma_dec_enc_u64(n, enc_update_pairs(pairs) + rest);
    lemma_dec_enc_update_pairs(pairs, rest);
    assert(n as nat == pairs.len());
    assert(DeviceId(id.0) == id);
}

proof fn lemma_dec_enc_server_restart(id: DeviceId, rest: Seq<u8>)
    ensures
        dec_server(enc_server(ServerMessageView::RestartDevice(id)) + rest) == Some(
            (ServerMessageView::RestartDevice(id), rest),
        ),
{
    let m = ServerMessageView::RestartDevice(id);
    assert(enc_server(m) + rest =~= enc_u8(1) + (enc_u128(id.0) + rest));
    lemma_dec_enc_u8(1, enc_u128(id.0) + rest);
    lemma_dec_enc_u128(id.0, rest);
    assert(DeviceId(id.0) == id);
}

proof fn lemma_dec_enc_server_clear(id: DeviceId, rest: Seq<u8>)
    ensures
        dec_server(enc_server(ServerMessageView::ClearCredentials(id)) + rest) == Some(
            (ServerMessageView::ClearCredentials(id), rest),
        ),
{
    let m = ServerMessageView::ClearCredentials(id);
    assert(enc_server(m) + rest =~= enc_u8(2) + (enc_u128(id.0) + rest));
    lemma_dec_enc_u8(2, enc_u128(id.0) + rest);
    lemma_dec_enc_u128(id.0, rest);
    assert(DeviceId(id.0) == id);
}

/// No two distinct client messages share an encoding: a binary frame
/// means at most one thing.
pub proof fn lemma_enc_client_injective(a: ClientMessageView, b: ClientMessageView)
    requires
        wf_client_view(a),
        wf_client_view(b),
        enc_client(a) == enc_client(b),
    ensures
        a == b,
{
    lemma_client_round_trip(a);
    lemma_client_round_trip(b);
}

pub proof fn lemma_dec_enc_server(m: ServerMessageView, rest: Seq<u8>)
    requires
        wf_server_view(m),
    ensures
        dec_server(enc_server(m) + rest) == Some((m, rest)),
{
    match m {
        ServerMessageView::UpdateDevice(id, pairs) => lemma_dec_enc_server_update(
            id,
            pairs,
            rest,
        ),
        ServerMessageView::RestartDevice(id) => lemma_dec_enc_server_restart(id, rest),
        ServerMessageView::ClearCredentials(id) => lemma_dec_enc_server_clear(id, rest),
    }
}

// --- executable writers ---------------------------------------------

fn wr_u8(out: &mut Vec<u8>, v: u8)
    ensures
        final(out)@ == old(out)@ + enc_u8(v),
{
    out.push(v);
    proof {
        assert(out@ =~= old(out)@ + enc_u8(v));
    }
}

fn wr_u32(out: &mut Vec<u8>, v: u32)
    ensures
        final(out)@ == old(out)@ + enc_u32(v),
{
    out.push((v & 0xff) as u8);
    out.push(((v >> 8) & 0xff) as u8);
    out.push(((v >> 16) & 0xff) as u8);
    out.push(((v >> 24) & 0xff) as u8);
    proof {
        assert(out@ =~= old(out)@ + enc_u32(v));
    }
}

fn wr_u64(out: &mut Vec<u8>, v: u64)
    ensures
        final(out)@ == old(out)@ + enc_u64(v),
{
    wr_u32(out, v as u32);
    wr_u32(out, (v >> 32) as u32);
    proof {
        assert(out@ =~= old(out)@ + enc_u64(v));
    }
}

fn wr_u128(out: &mut Vec<u8>, v: u128)
    ensures
        final(out)@ == old(out)@ + enc_u128(v),
{
    wr_u32(out, v as u32);
    wr_u32(out, (v >> 32) as u32);
    wr_u32(out, (v >> 64) as u32);
    wr_u32(out, (v >> 96) as u32);
    proof {
        assert(out@ =~= old(out)@ + enc_u128(v));
    }
}

fn wr_i32(out: &mut Vec<u8>, v: i32)
    ensures
        final(out)@ == old(out)@ + enc_i32(v),
{
    let u: u32 = ((v as i64) + 0x8000_0000) as u32;
    assert(u == (v as int + 0x8000_0000) as u32);
    wr_u32(out, u);
}

fn wr_i8(out: &mut Vec<u8>, v: i8)
    ensures
        final(out)@ == old(out)@ + enc_i8(v),
{
    let u: u8 = ((v as i16) + 0x80) as u8;
    assert(u == (v as int + 0x80) as u8);
    wr_u8(out, u);
}

fn wr_bool(out: &mut Vec<u8>, v: bool)
    ensures
        final(out)@ == old(out)@ + enc_bool(v),
{
    wr_u8(out, if v { 1 } else { 0 });
}

fn wr_str(out: &mut Vec<u8>, s: &str)
    ensures
        final(out)@ == old(out)@ + enc_str(s@),
{
    let n = s.unicode_len();
    wr_u64(out, n as u64);
    let ghost p0 = out@;
    let mut i: usize = 0;
    while i < n
        invariant
            i <= n,
            n == s@.len(),
            out@ == p0 + enc_chars(s@.take(i as int)),
        decreases n - i,
    {
        let c = s.get_char(i);
        wr_u32(out, c as u32);
        proof {
            lemma_enc_chars_snoc(s@, i as int);
            assert(out@ =~= p0 + enc_chars(s@.take(i as int + 1)));
        }
        i += 1;
    }
    proof {
        assert(s@.take(n as int) =~= s@);
        assert(out@ =~= old(out)@ + enc_str(s@));
    }
}

/// Encoding one more character appends that character's bytes.
proof fn lemma_enc_chars_snoc(s: Seq<char>, i: int)
    requires
        0 <= i < s.len(),
    ensures
        enc_chars(s.take(i + 1)) == enc_chars(s.take(i)) + enc_char(s[i]),
    decreases i,
{
    if i == 0 {
        let t = s.take(1);
        assert(t[0] == s[0]);
        assert(t.skip(1) =~= Seq::<char>::empty());
        assert(enc_chars(t) == enc_char(s[0]) + enc_chars(Seq::<char>::empty()));
        assert(s.take(0) =~= Seq::<char>::empty());
        assert(enc_char(s[0]) + Seq::<u8>::empty() =~= enc_char(s[0]));
        assert(Seq::<u8>::empty() + enc_char(s[0]) =~= enc_char(s[0]));
    } else {
        lemma_enc_chars_snoc(s.skip(1), i - 1);
        assert(s.take(i + 1)[0] == s[0]);
        assert(s.take(i + 1).skip(1) =~= s.skip(1).take(i));
        assert(s.take(i).skip(1) =~= s.skip(1).take(i - 1));
        assert(s.skip(1)[i - 1] == s[i]);
        assert(enc_chars(s.take(i + 1)) == enc_char(s[0]) + enc_chars(s.skip(1).take(i)));
        assert(enc_chars(s.take(i)) == enc_char(s[0]) + enc_chars(s.skip(1).take(i - 1)));
        assert(enc_char(s[0]) + (enc_chars(s.skip(1).take(i - 1)) + enc_char(s[i])) =~= (
        enc_char(s[0]) + enc_chars(s.skip(1).take(i - 1))) + enc_char(s[i]));
    }
}

// --- executable readers ---------------------------------------------

fn rd_u8(b: &Vec<u8>, pos: &mut usize) -> (r: Option<u8>)
    requires
        *old(pos) <= b@.len(),
    ensures
        match r {
            Some(v) => *final(pos) <= b@.len() && dec_u8(b@.skip(*old(pos) as int)) == Some(
                (v, b@.skip(*final(pos) as int)),
            ),
            None => dec_u8(b@.skip(*old(pos) as int)) is None,
        },
{
    if b.len() - *pos >= 1 {
        let v = b[*pos];
        proof {
            assert(b@.skip(*pos as int).skip(1) =~= b@.skip(*pos as int + 1));
        }
        *pos = *pos + 1;
        Some(v)
    } else {
        None
    }
}

fn rd_u32(b: &Vec<u8>, pos: &mut usize) -> (r: Option<u32>)
    requires
        *old(pos) <= b@.len(),
    ensures
        match r {
            Some(v) => *final(pos) <= b@.len() && dec_u32(b@.skip(*old(pos) as int)) == Some(
                (v, b@.skip(*final(pos) as int)),
            ),
            None => dec_u32(b@.skip(*old(pos) as int)) is None,
        },
{
    if b.len() - *pos >= 4 {
        let p = *pos;
        let v = (b[p] as u32) | ((b[p + 1] as u32) << 8) | ((b[p + 2] as u32) << 16) | ((b[p
            + 3] as u32) << 24);
        proof {
            assert(b@.skip(p as int).skip(4) =~= b@.skip(p as int + 4));
            assert(b@.skip(p as int)[0] == b@[p as int]);
            assert(b@.skip(p as int)[1] == b@[p as int + 1]);
            assert(b@.skip(p as int)[2] == b@[p as int + 2]);
            assert(b@.skip(p as int)[3] == b@[p as int + 3]);
        }
        *pos = p + 4;
        Some(v)
    } else {
        None
    }
}

fn rd_u64(b: &Vec<u8>, pos: &mut usize) -> (r: Option<u64>)
    requires
        *old(pos) <= b@.len(),
    ensures
        match r {
            Some(v) => *final(pos) <= b@.len() && dec_u64(b@.skip(*old(pos) as int)) == Some(
                (v, b@.skip(*final(pos) as int)),
            ),
            None => dec_u64(b@.skip(*old(pos) as int)) is None,
        },
{
    let lo = match rd_u32(b, pos) {
        Some(v) => v,
        None => {
            return None;
        },
    };
    let hi = match rd_u32(b, pos) {
        Some(v) => v,
        None => {
            return None;
        },
    };
    Some((lo as u64) | ((hi as u64) << 32))
}

fn rd_u128(b: &Vec<u8>, pos: &mut usize) -> (r: Option<u128>)
    requires
        *old(pos) <= b@.len(),
    ensures
        match r {
            Some(v) => *final(pos) <= b@.len() && dec_u128(b@.skip(*old(pos) as int)) == Some(
                (v, b@.skip(*final(pos) as int)),
            ),
            None => dec_u128(b@.skip(*old(pos) as int)) is None,
        },
{
    let p0 = match rd_u32(b, pos) {
        Some(v) => v,
        None => {
            return None;
        },
    };
    let p1 = match rd_u32(b, pos) {
        Some(v) => v,
        None => {
            return None;
        },
    };
    let p2 = match rd_u32(b, pos) {
        Some(v) => v,
        None => {
            return None;
        },
    };
    let p3 = match rd_u32(b, pos) {
        Some(v) => v,
        None => {
            return None;
        },
    };
    Some((p0 as u128) | ((p1 as u128) << 32) | ((p2 as u128) << 64) | ((p3 as u128) << 96))
}

fn rd_i32(b: &Vec<u8>, pos: &mut usize) -> (r: Option<i32>)
    requires
        *old(pos) <= b@.len(),
    ensures
        match r {
            Some(v) => *final(pos) <= b@.len() && dec_i32(b@.skip(*old(pos) as int)) == Some(
                (v, b@.skip(*final(pos) as int)),
            ),
            None => dec_i32(b@.skip(*old(pos) as int)) is None,
        },
{
    let u = match rd_u32(b, pos) {
        Some(v) => v,
        None => {
            return None;
        },
    };
    let v: i32 = ((u as i64) - 0x8000_0000) as i32;
    assert(v == i32_of(u));
    Some(v)
}

fn rd_i8(b: &Vec<u8>, pos: &mut usize) -> (r: Option<i8>)
    requires
        *old(pos) <= b@.len(),
    ensures
        match r {
            Some(v) => *final(pos) <= b@.len() && dec_i8(b@.skip(*old(pos) as int)) == Some(
                (v, b@.skip(*final(pos) as int)),
            ),
            None => dec_i8(b@.skip(*old(pos) as int)) is None,
        },
{
    let u = match rd_u8(b, pos) {
        Some(v) => v,
        None => {
            return None;
        },
    };
    let v: i8 = ((u as i16) - 0x80) as i8;
    assert(v == i8_of(u));
    Some(v)
}

fn rd_bool(b: &Vec<u8>, pos: &mut usize) -> (r: Option<bool>)
    requires
        *old(pos) <= b@.len(),
    ensures
        match r {
            Some(v) => *final(pos) <= b@.len() && dec_bool(b@.skip(*old(pos) as int)) == Some(
                (v, b@.skip(*final(pos) as int)),
            ),
            None => dec_bool(b@.skip(*old(pos) as int)) is None,
        },
{
    let u = match rd_u8(b, pos) {
        Some(v) => v,
        None => {
            return None;
        },
    };
    if u == 0 {
        Some(false)
    } else if u == 1 {
        Some(true)
    } else {
        None
    }
}

/// Relies on `char::from_u32`: `Some` exactly on the unicode scalar
/// values, returning the character with that value.
#[verifier::external_body]
fn char_from_u32(v: u32) -> (r: Option<char>)
    ensures
        r == if valid_scalar(v) {
            Some(v as char)
        } else {
            None::<char>
        },
{
    char::from_u32(v)
}

/// Relies on `String::push`: appends exactly the one character.
#[verifier::external_body]
fn string_push(s: &mut String, c: char)
    ensures
        final(s)@ == old(s)@.push(c),
{
    s.push(c);
}

fn rd_string(b: &Vec<u8>, pos: &mut usize) -> (r: Option<String>)
    requires
        *old(pos) <= b@.len(),
    ensures
        match r {
            Some(s) => *final(pos) <= b@.len() && dec_str(b@.skip(*old(pos) as int)) == Some(
                (s@, b@.skip(*final(pos) as int)),
            ),
            None => dec_str(b@.skip(*old(pos) as int)) is None,
        },
{
    let n = match rd_u64(b, pos) {
        Some(v) => v,
        None => {
            return None;
        },
    };
    let ghost mid = *pos;
    let mut s = String::new();
    let mut i: u64 = 0;
    while i < n
        invariant
            i <= n,
            *pos <= b@.len(),
            dec_str(b@.skip(*old(pos) as int)) == dec_chars(b@.skip(mid as int), n as nat),
            dec_chars(b@.skip(mid as int), n as nat) == (match dec_chars(
                b@.skip(*pos as int),
                (n - i) as nat,
            ) {
                Some((t, r)) => Some((s@ + t, r)),
                None => None::<(Seq<char>, Seq<u8>)>,
            }),
        decreases n - i,
    {
        let ghost cur = *pos;
        let v = match rd_u32(b, pos) {
            Some(v) => v,
            None => {
                proof {
                    assert(dec_chars(b@.skip(cur as int), (n - i) as nat) is None);
                }
                return None;
            },
        };
        let c = match char_from_u32(v) {
            Some(c) => c,
            None => {
                proof {
                    assert(dec_char(b@.skip(cur as int)) is None);
                    assert(dec_chars(b@.skip(cur as int), (n - i) as nat) is None);
                }
                return None;
            },
        };
        proof {
            let d = dec_chars(b@.skip(*pos as int), (n - i - 1) as nat);
            if d is Some {
                let t = (d->0).0;
                assert(s@ + (seq![c] + t) =~= s@.push(c) + t);
            }
        }
        string_push(&mut s, c);
        i = i + 1;
    }
    proof {
        assert(dec_chars(b@.skip(*pos as int), 0) == Some(
            (Seq::<char>::empty(), b@.skip(*pos as int)),
        ));
        assert(s@ + Seq::<char>::empty() =~= s@);
    }
    Some(s)
}


// --- executable writers, message parts ------------------------------

fn wr_mouse_button(out: &mut Vec<u8>, b: &MouseButton)
    ensures
        final(out)@ == old(out)@ + enc_mouse_button(*b),
{
    let tag: u8 = match b {
        MouseButton::Left => 0,
        MouseButton::Middle => 1,
        MouseButton::Right => 2,
        MouseButton::Back => 3,
        MouseButton::Forward => 4,
        MouseButton::ScrollUp => 5,
        MouseButton::ScrollDown => 6,
        MouseButton::ScrollLeft => 7,
        MouseButton::ScrollRight => 8,
    };
    wr_u8(out, tag);
}

fn wr_state(out: &mut Vec<u8>, st: &MouseButtonState)
    ensures
        final(out)@ == old(out)@ + enc_state(*st),
{
    let tag: u8 = match st {
        MouseButtonState::Up => 0,
        MouseButtonState::Down => 1,
    };
    wr_u8(out, tag);
}

fn wr_key(out: &mut Vec<u8>, k: &Key)
    ensures
        final(out)@ == old(out)@ + enc_key(*k),
{
    let tag: u8 = match k {
        Key::Alt => 0,
        Key::Backspace => 1,
        Key::Control => 2,
        Key::Escape => 3,
        Key::Meta => 4,
        Key::Return => 5,
        Key::Shift => 6,
        Key::Space => 7,
        Key::Tab => 8,
    };
    wr_u8(out, tag);
}

fn wr_layout_button(out: &mut Vec<u8>, b: &Button)
    ensures
        final(out)@ == old(out)@ + enc_layout_button(*b),
{
    match b {
        Button::MouseButton(mb) => {
            wr_u8(out, 0);
            wr_mouse_button(out, mb);
            proof {
                assert(out@ =~= old(out)@ + enc_layout_button(*b));
            }
        },
        Button::CustomButton(_) => {
            wr_u8(out, 1);
        },
    }
}

fn wr_opt_config(out: &mut Vec<u8>, c: &Option<MouseConfig>)
    ensures
        final(out)@ == old(out)@ + enc_opt_config(*c),
{
    match c {
        None => {
            wr_u8(out, 0);
        },
        Some(cfg) => {
            wr_u8(out, 1);
            wr_i8(out, cfg.x_sen);
            wr_i8(out, cfg.y_sen);
            proof {
                assert(out@ =~= old(out)@ + enc_opt_config(*c));
            }
        },
    }
}

fn wr_keyboard(out: &mut Vec<u8>, k: &KeyboardButton)
    ensures
        final(out)@ == old(out)@ + enc_keyboard(k@),
{
    match k {
        KeyboardButton::Sequence(s) => {
            wr_u8(out, 0);
            wr_str(out, s.as_str());
            proof {
                assert(out@ =~= old(out)@ + enc_keyboard(k@));
            }
        },
        KeyboardButton::SequenceDsl(s) => {
            wr_u8(out, 1);
            wr_str(out, s.as_str());
            proof {
                assert(out@ =~= old(out)@ + enc_keyboard(k@));
            }
        },
        KeyboardButton::Key(key) => {
            wr_u8(out, 2);
            wr_key(out, key);
            proof {
                assert(out@ =~= old(out)@ + enc_keyboard(k@));
            }
        },
    }
}

fn wr_custom(out: &mut Vec<u8>, c: &CustomCommand)
    ensures
        final(out)@ == old(out)@ + enc_custom(c@),
{
    match c {
        CustomCommand::Binary(p) => {
            wr_u8(out, 0);
            wr_str(out, p.as_str());
            proof {
                assert(out@ =~= old(out)@ + enc_custom(c@));
            }
        },
    }
}

fn wr_action(out: &mut Vec<u8>, a: &ButtonAction)
    ensures
        final(out)@ == old(out)@ + enc_action(a@),
{
    match a {
        ButtonAction::MouseButton(mb, st) => {
            wr_u8(out, 0);
            wr_mouse_button(out, mb);
            wr_state(out, st);
            proof {
                assert(out@ =~= old(out)@ + enc_action(a@));
            }
        },
        ButtonAction::KeyboardButton(k) => {
            wr_u8(out, 1);
            wr_keyboard(out, k);
            proof {
                assert(out@ =~= old(out)@ + enc_action(a@));
            }
        },
        ButtonAction::GamepadButton(btn, pressed) => {
            wr_u8(out, 2);
            wr_u8(out, *btn);
            wr_bool(out, *pressed);
            proof {
                assert(out@ =~= old(out)@ + enc_action(a@));
            }
        },
        ButtonAction::CustomButton(c) => {
            wr_u8(out, 3);
            wr_custom(out, c);
            proof {
                assert(out@ =~= old(out)@ + enc_action(a@));
            }
        },
    }
}

/// Encoding one more layout button appends that button's bytes.
proof fn lemma_enc_buttons_snoc(s: Seq<Button>, i: int)
    requires
        0 <= i < s.len(),
    ensures
        enc_buttons(s.take(i + 1)) == enc_buttons(s.take(i)) + enc_layout_button(s[i]),
    decreases i,
{
    if i == 0 {
        let t = s.take(1);
        assert(t[0] == s[0]);
        assert(t.skip(1) =~= Seq::<Button>::empty());
        assert(enc_buttons(t) == enc_layout_button(s[0]) + enc_buttons(Seq::<Button>::empty()));
        assert(s.take(0) =~= Seq::<Button>::empty());
        assert(enc_layout_button(s[0]) + Seq::<u8>::empty() =~= enc_layout_button(s[0]));
        assert(Seq::<u8>::empty() + enc_layout_button(s[0]) =~= enc_layout_button(s[0]));
    } else {
        lemma_enc_buttons_snoc(s.skip(1), i - 1);
        assert(s.take(i + 1)[0] == s[0]);
        assert(s.take(i + 1).skip(1) =~= s.skip(1).take(i));
        assert(s.take(i).skip(1) =~= s.skip(1).take(i - 1));
        assert(s.skip(1)[i - 1] == s[i]);
        assert(enc_buttons(s.take(i + 1)) == enc_layout_button(s[0]) + enc_buttons(
            s.skip(1).take(i),
        ));
        assert(enc_buttons(s.take(i)) == enc_layout_button(s[0]) + enc_buttons(
            s.skip(1).take(i - 1),
        ));
        assert(enc_layout_button(s[0]) + (enc_buttons(s.skip(1).take(i - 1))
            + enc_layout_button(s[i])) =~= (enc_layout_button(s[0]) + enc_buttons(
            s.skip(1).take(i - 1),
        )) + enc_layout_button(s[i]));
    }
}

/// Encoding one more action appends that action's bytes.
proof fn lemma_enc_actions_snoc(s: Seq<ButtonActionView>, i: int)
    requires
        0 <= i < s.len(),
    ensures
        enc_actions(s.take(i + 1)) == enc_actions(s.take(i)) + enc_action(s[i]),
    decreases i,
{
    if i == 0 {
        let t = s.take(1);
        assert(t[0] == s[0]);
        assert(t.skip(1) =~= Seq::<ButtonActionView>::empty());
        assert(enc_actions(t) == enc_action(s[0]) + enc_actions(
            Seq::<ButtonActionView>::empty(),
        ));
        assert(s.take(0) =~= Seq::<ButtonActionView>::empty());
        assert(enc_action(s[0]) + Seq::<u8>::empty() =~= enc_action(s[0]));
        assert(Seq::<u8>::empty() + enc_action(s[0]) =~= enc_action(s[0]));
    } else {
        lemma_enc_actions_snoc(s.skip(1), i - 1);
        assert(s.take(i + 1)[0] == s[0]);
        assert(s.take(i + 1).skip(1) =~= s.skip(1).take(i));
        assert(s.take(i).skip(1) =~= s.skip(1).take(i - 1));
        assert(s.skip(1)[i - 1] == s[i]);
        assert(enc_actions(s.take(i + 1)) == enc_action(s[0]) + enc_actions(
            s.skip(1).take(i),
        ));
        assert(enc_actions(s.take(i)) == enc_action(s[0]) + enc_actions(
            s.skip(1).take(i - 1),
        ));
        assert(enc_action(s[0]) + (enc_actions(s.skip(1).take(i - 1)) + enc_action(s[i])) =~= (
        enc_action(s[0]) + enc_actions(s.skip(1).take(i - 1))) + enc_action(s[i]));
    }
}

/// Encoding one more update pair appends that pair's bytes.
proof fn lemma_enc_update_pairs_snoc(s: Seq<(DeviceId, Seq<ButtonActionView>)>, i: int)
    requires
        0 <= i < s.len(),
    ensures
        enc_update_pairs(s.take(i + 1)) == enc_update_pairs(s.take(i)) + enc_update_pair(s[i]),
    decreases i,
{
    if i == 0 {
        let t = s.take(1);
        assert(t[0] == s[0]);
        assert(t.skip(1) =~= Seq::<(DeviceId, Seq<ButtonActionView>)>::empty());
        assert(enc_update_pairs(t) == enc_update_pair(s[0]) + enc_update_pairs(
            Seq::<(DeviceId, Seq<ButtonActionView>)>::empty(),
        ));
        assert(s.take(0) =~= Seq::<(DeviceId, Seq<ButtonActionView>)>::empty());
        assert(enc_update_pair(s[0]) + Seq::<u8>::empty() =~= enc_update_pair(s[0]));
        assert(Seq::<u8>::empty() + enc_update_pair(s[0]) =~= enc_update_pair(s[0]));
    } else {
        lemma_enc_update_pairs_snoc(s.skip(1), i - 1);
        assert(s.take(i + 1)[0] == s[0]);
        assert(s.take(i + 1).skip(1) =~= s.skip(1).take(i));
        assert(s.take(i).skip(1) =~= s.skip(1).take(i - 1));
        assert(s.skip(1)[i - 1] == s[i]);
        assert(enc_update_pairs(s.take(i + 1)) == enc_update_pair(s[0]) + enc_update_pairs(
            s.skip(1).take(i),
        ));
        assert(enc_update_pairs(s.take(i)) == enc_update_pair(s[0]) + enc_update_pairs(
            s.skip(1).take(i - 1),
        ));
        assert(enc_update_pair(s[0]) + (enc_update_pairs(s.skip(1).take(i - 1))
            + enc_update_pair(s[i])) =~= (enc_update_pair(s[0]) + enc_update_pairs(
            s.skip(1).take(i - 1),
        )) + enc_update_pair(s[i]));
    }
}

fn wr_button_list(out: &mut Vec<u8>, v: &Vec<Button>)
    ensures
        final(out)@ == old(out)@ + enc_button_list(v@),
{
    let n = v.len();
    wr_u64(out, n as u64);
    let ghost p0 = out@;
    let mut i: usize = 0;
    while i < n
        invariant
            i <= n,
            n == v@.len(),
            out@ == p0 + enc_buttons(v@.take(i as int)),
        decreases n - i,
    {
        wr_layout_button(out, &v[i]);
        proof {
            lemma_enc_buttons_snoc(v@, i as int);
            assert(out@ =~= p0 + enc_buttons(v@.take(i as int + 1)));
        }
        i += 1;
    }
    proof {
        assert(v@.take(n as int) =~= v@);
        assert(out@ =~= old(out)@ + enc_button_list(v@));
    }
}

fn wr_action_list(out: &mut Vec<u8>, v: &Vec<ButtonAction>)
    ensures
        final(out)@ == old(out)@ + enc_action_list(v@.map_values(|a: ButtonAction| a@)),
{
    let ghost vs = v@.map_values(|a: ButtonAction| a@);
    let n = v.len();
    wr_u64(out, n as u64);
    let ghost p0 = out@;
    let mut i: usize = 0;
    while i < n
        invariant
            i <= n,
            n == v@.len(),
            vs == v@.map_values(|a: ButtonAction| a@),
            out@ == p0 + enc_actions(vs.take(i as int)),
        decreases n - i,
    {
        wr_action(out, &v[i]);
        proof {
            assert(vs[i as int] == v@[i as int]@);
            lemma_enc_actions_snoc(vs, i as int);
            assert(out@ =~= p0 + enc_actions(vs.take(i as int + 1)));
        }
        i += 1;
    }
    proof {
        assert(vs.take(n as int) =~= vs);
        assert(out@ =~= old(out)@ + enc_action_list(vs));
    }
}

fn wr_device(out: &mut Vec<u8>, d: &Device)
    ensures
        final(out)@ == old(out)@ + enc_device(d@),
{
    wr_u128(out, d.id().0);
    wr_str(out, d.name());
    wr_opt_config(out, d.mouse_config());
    wr_button_list(out, d.buttons());
    proof {
        assert(out@ =~= old(out)@ + enc_device(d@));
    }
}

/// Encode a client message as one binary frame.
pub fn encode_client_message(m: &ClientMessage) -> (r: Vec<u8>)
    ensures
        r@ == enc_client(m@),
{
    let mut out: Vec<u8> = Vec::new();
    proof {
        assert(out@ =~= Seq::<u8>::empty());
    }
    match m {
        ClientMessage::MouseRead(read) => {
            wr_u8(&mut out, 0);
            wr_i32(&mut out, read.x_read);
            wr_i32(&mut out, read.y_read);
        },
        ClientMessage::ButtonActions(acts) => {
            wr_u8(&mut out, 1);
            wr_action_list(&mut out, acts);
        },
        ClientMessage::AxisRead(a) => {
            wr_u8(&mut out, 2);
            wr_u8(&mut out, a.0);
            wr_i32(&mut out, a.1);
        },
        ClientMessage::HatRead(h) => {
            wr_u8(&mut out, 3);
            wr_u8(&mut out, h.0);
            wr_i32(&mut out, h.1);
        },
        ClientMessage::Device(d) => {
            wr_u8(&mut out, 4);
            wr_device(&mut out, d);
        },
    }
    proof {
        assert(out@ =~= enc_client(m@));
    }
    out
}

/// Encode a server command as one binary frame.
pub fn encode_server_message(m: &ServerMessage) -> (r: Vec<u8>)
    ensures
        r@ == enc_server(m@),
{
    let mut out: Vec<u8> = Vec::new();
    proof {
        assert(out@ =~= Seq::<u8>::empty());
    }
    match m {
        ServerMessage::UpdateDevice(id, pairs) => {
            let ghost vs = pairs@.map_values(
                |p: (DeviceId, Vec<ButtonAction>)|
                    (p.0, p.1@.map_values(|a: ButtonAction| a@)),
            );
            wr_u8(&mut out, 0);
            wr_u128(&mut out, id.0);
            let n = pairs.len();
            wr_u64(&mut out, n as u64);
            let ghost p0 = out@;
            let mut i: usize = 0;
            while i < n
                invariant
                    i <= n,
                    n == pairs@.len(),
                    vs == pairs@.map_values(
                        |p: (DeviceId, Vec<ButtonAction>)|
                            (p.0, p.1@.map_values(|a: ButtonAction| a@)),
                    ),
                    out@ == p0 + enc_update_pairs(vs.take(i as int)),
                decreases n - i,
            {
                let pair: &(DeviceId, Vec<ButtonAction>) = &pairs[i];
                wr_u128(&mut out, pair.0.0);
                wr_action_list(&mut out, &pair.1);
                proof {
                    assert(vs[i as int] == (
                        pairs@[i as int].0,
                        pairs@[i as int].1@.map_values(|a: ButtonAction| a@),
                    ));
                    lemma_enc_update_pairs_snoc(vs, i as int);
                    assert(out@ =~= p0 + enc_update_pairs(vs.take(i as int + 1)));
                }
                i += 1;
            }
            proof {
                assert(vs.take(n as int) =~= vs);
                assert(out@ =~= enc_server(m@));
            }
        },
        ServerMessage::RestartDevice(id) => {
            wr_u8(&mut out, 1);
            wr_u128(&mut out, id.0);
            proof {
                assert(out@ =~= enc_server(m@));
            }
        },
        ServerMessage::ClearCredentials(id) => {
            wr_u8(&mut out, 2);
            wr_u128(&mut out, id.0);
            proof {
                assert(out@ =~= enc_server(m@));
            }
        },
    }
    out
}


// --- executable readers, message parts ------------------------------

fn rd_mouse_button(b: &Vec<u8>, pos: &mut usize) -> (r: Option<MouseButton>)
    requires
        *old(pos) <= b@.len(),
    ensures
        match r {
            Some(v) => *final(pos) <= b@.len() && dec_mouse_button(b@.skip(*old(pos) as int))
                == Some((v, b@.skip(*final(pos) as int))),
            None => dec_mouse_button(b@.skip(*old(pos) as int)) is None,
        },
{
    let t = match rd_u8(b, pos) {
        Some(v) => v,
        None => {
            return None;
        },
    };
    if t == 0 {
        Some(MouseButton::Left)
    } else if t == 1 {
        Some(MouseButton::Middle)
    } else if t == 2 {
        Some(MouseButton::Right)
    } else if t == 3 {
        Some(MouseButton::Back)
    } else if t == 4 {
        Some(MouseButton::Forward)
    } else if t == 5 {
        Some(MouseButton::ScrollUp)
    } else if t == 6 {
        Some(MouseButton::ScrollDown)
    } else if t == 7 {
        Some(MouseButton::ScrollLeft)
    } else if t == 8 {
        Some(MouseButton::ScrollRight)
    } else {
        None
    }
}

fn rd_state(b: &Vec<u8>, pos: &mut usize) -> (r: Option<MouseButtonState>)
    requires
        *old(pos) <= b@.len(),
    ensures
        match r {
            Some(v) => *final(pos) <= b@.len() && dec_state(b@.skip(*old(pos) as int)) == Some(
                (v, b@.skip(*final(pos) as int)),
            ),
            None => dec_state(b@.skip(*old(pos) as int)) is None,
        },
{
    let t = match rd_u8(b, pos) {
        Some(v) => v,
        None => {
            return None;
        },
    };
    if t == 0 {
        Some(MouseButtonState::Up)
    } else if t == 1 {
        Some(MouseButtonState::Down)
    } else {
        None
    }
}

fn rd_key(b: &Vec<u8>, pos: &mut usize) -> (r: Option<Key>)
    requires
        *old(pos) <= b@.len(),
    ensures
        match r {
            Some(v) => *final(pos) <= b@.len() && dec_key(b@.skip(*old(pos) as int)) == Some(
                (v, b@.skip(*final(pos) as int)),
            ),
            None => dec_key(b@.skip(*old(pos) as int)) is None,
        },
{
    let t = match rd_u8(b, pos) {
        Some(v) => v,
        None => {
            return None;
        },
    };
    if t == 0 {
        Some(Key::Alt)
    } else if t == 1 {
        Some(Key::Backspace)
    } else if t == 2 {
        Some(Key::Control)
    } else if t == 3 {
        Some(Key::Escape)
    } else if t == 4 {
        Some(Key::Meta)
    } else if t == 5 {
        Some(Key::Return)
    } else if t == 6 {
        Some(Key::Shift)
    } else if t == 7 {
        Some(Key::Space)
    } else if t == 8 {
        Some(Key::Tab)
    } else {
        None
    }
}

fn rd_layout_button(b: &Vec<u8>, pos: &mut usize) -> (r: Option<Button>)
    requires
        *old(pos) <= b@.len(),
    ensures
        match r {
            Some(v) => *final(pos) <= b@.len() && dec_layout_button(b@.skip(*old(pos) as int))
                == Some((v, b@.skip(*final(pos) as int))),
            None => dec_layout_button(b@.skip(*old(pos) as int)) is None,
        },
{
    let t = match rd_u8(b, pos) {
        Some(v) => v,
        None => {
            return None;
        },
    };
    if t == 0 {
        match rd_mouse_button(b, pos) {
            Some(mb) => Some(Button::MouseButton(mb)),
            None => None,
        }
    } else if t == 1 {
        Some(Button::CustomButton(CustomButton))
    } else {
        None
    }
}

fn rd_opt_config(b: &Vec<u8>, pos: &mut usize) -> (r: Option<Option<MouseConfig>>)
    requires
        *old(pos) <= b@.len(),
    ensures
        match r {
            Some(v) => *final(pos) <= b@.len() && dec_opt_config(b@.skip(*old(pos) as int))
                == Some((v, b@.skip(*final(pos) as int))),
            None => dec_opt_config(b@.skip(*old(pos) as int)) is None,
        },
{
    let t = match rd_u8(b, pos) {
        Some(v) => v,
        None => {
            return None;
        },
    };
    if t == 0 {
        Some(None)
    } else if t == 1 {
        let x = match rd_i8(b, pos) {
            Some(v) => v,
            None => {
                return None;
            },
        };
        let y = match rd_i8(b, pos) {
            Some(v) => v,
            None => {
                return None;
            },
        };
        Some(Some(MouseConfig::new(x, y)))
    } else {
        None
    }
}

fn rd_keyboard(b: &Vec<u8>, pos: &mut usize) -> (r: Option<KeyboardButton>)
    requires
        *old(pos) <= b@.len(),
    ensures
        match r {
            Some(v) => *final(pos) <= b@.len() && dec_keyboard(b@.skip(*old(pos) as int))
                == Some((v@, b@.skip(*final(pos) as int))),
            None => dec_keyboard(b@.skip(*old(pos) as int)) is None,
        },
{
    let t = match rd_u8(b, pos) {
        Some(v) => v,
        None => {
            return None;
        },
    };
    if t == 0 {
        match rd_string(b, pos) {
            Some(seqtext) => Some(KeyboardButton::Sequence(seqtext)),
            None => None,
        }
    } else if t == 1 {
        match rd_string(b, pos) {
            Some(seqtext) => Some(KeyboardButton::SequenceDsl(seqtext)),
            None => None,
        }
    } else if t == 2 {
        match rd_key(b, pos) {
            Some(k) => Some(KeyboardButton::Key(k)),
            None => None,
        }
    } else {
        None
    }
}

fn rd_custom(b: &Vec<u8>, pos: &mut usize) -> (r: Option<CustomCommand>)
    requires
        *old(pos) <= b@.len(),
    ensures
        match r {
            Some(v) => *final(pos) <= b@.len() && dec_custom(b@.skip(*old(pos) as int)) == Some(
                (v@, b@.skip(*final(pos) as int)),
            ),
            None => dec_custom(b@.skip(*old(pos) as int)) is None,
        },
{
    let t = match rd_u8(b, pos) {
        Some(v) => v,
        None => {
            return None;
        },
    };
    if t == 0 {
        match rd_string(b, pos) {
            Some(p) => Some(CustomCommand::Binary(p)),
            None => None,
        }
    } else {
        None
    }
}

fn rd_action(b: &Vec<u8>, pos: &mut usize) -> (r: Option<ButtonAction>)
    requires
        *old(pos) <= b@.len(),
    ensures
        match r {
            Some(v) => *final(pos) <= b@.len() && dec_action(b@.skip(*old(pos) as int)) == Some(
                (v@, b@.skip(*final(pos) as int)),
            ),
            None => dec_action(b@.skip(*old(pos) as int)) is None,
        },
{
    let t = match rd_u8(b, pos) {
        Some(v) => v,
        None => {
            return None;
        },
    };
    if t == 0 {
        let mb = match rd_mouse_button(b, pos) {
            Some(v) => v,
            None => {
                return None;
            },
        };
        let st = match rd_state(b, pos) {
            Some(v) => v,
            None => {
                return None;
            },
        };
        Some(ButtonAction::MouseButton(mb, st))
    } else if t == 1 {
        match rd_keyboard(b, pos) {
            Some(k) => Some(ButtonAction::KeyboardButton(k)),
            None => None,
        }
    } else if t == 2 {
        let btn = match rd_u8(b, pos) {
            Some(v) => v,
            None => {
                return None;
            },
        };
        let pressed = match rd_bool(b, pos) {
            Some(v) => v,
            None => {
                return None;
            },
        };
        Some(ButtonAction::GamepadButton(btn, pressed))
    } else if t == 3 {
        match rd_custom(b, pos) {
            Some(c) => Some(ButtonAction::CustomButton(c)),
            None => None,
        }
    } else {
        None
    }
}

fn rd_button_list(b: &Vec<u8>, pos: &mut usize) -> (r: Option<Vec<Button>>)
    requires
        *old(pos) <= b@.len(),
    ensures
        match r {
            Some(v) => *final(pos) <= b@.len() && dec_button_list(b@.skip(*old(pos) as int))
                == Some((v@, b@.skip(*final(pos) as int))),
            None => dec_button_list(b@.skip(*old(pos) as int)) is None,
        },
{
    let n = match rd_u64(b, pos) {
        Some(v) => v,
        None => {
            return None;
        },
    };
    let ghost mid = *pos;
    let mut acc: Vec<Button> = Vec::new();
    let mut i: u64 = 0;
    while i < n
        invariant
            i <= n,
            *pos <= b@.len(),
            dec_button_list(b@.skip(*old(pos) as int)) == dec_buttons(
                b@.skip(mid as int),
                n as nat,
            ),
            dec_buttons(b@.skip(mid as int), n as nat) == (match dec_buttons(
                b@.skip(*pos as int),
                (n - i) as nat,
            ) {
                Some((t, r)) => Some((acc@ + t, r)),
                None => None::<(Seq<Button>, Seq<u8>)>,
            }),
        decreases n - i,
    {
        let ghost cur = *pos;
        let v = match rd_layout_button(b, pos) {
            Some(v) => v,
            None => {
                proof {
                    assert(dec_buttons(b@.skip(cur as int), (n - i) as nat) is None);
                }
                return None;
            },
        };
        proof {
            let d = dec_buttons(b@.skip(*pos as int), (n - i - 1) as nat);
            if d is Some {
                let t = (d->0).0;
                assert(acc@ + (seq![v] + t) =~= acc@.push(v) + t);
            }
        }
        acc.push(v);
        i = i + 1;
    }
    proof {
        assert(dec_buttons(b@.skip(*pos as int), 0) == Some(
            (Seq::<Button>::empty(), b@.skip(*pos as int)),
        ));
        assert(acc@ + Seq::<Button>::empty() =~= acc@);
    }
    Some(acc)
}

fn rd_action_list(b: &Vec<u8>, pos: &mut usize) -> (r: Option<Vec<ButtonAction>>)
    requires
        *old(pos) <= b@.len(),
    ensures
        match r {
            Some(v) => *final(pos) <= b@.len() && dec_action_list(b@.skip(*old(pos) as int))
                == Some((v@.map_values(|a: ButtonAction| a@), b@.skip(*final(pos) as int))),
            None => dec_action_list(b@.skip(*old(pos) as int)) is None,
        },
{
    let n = match rd_u64(b, pos) {
        Some(v) => v,
        None => {
            return None;
        },
    };
    let ghost mid = *pos;
    let mut acc: Vec<ButtonAction> = Vec::new();
    let mut i: u64 = 0;
    proof {
        assert(acc@.map_values(|a: ButtonAction| a@) =~= Seq::<ButtonActionView>::empty());
    }
    while i < n
        invariant
            i <= n,
            *pos <= b@.len(),
            dec_action_list(b@.skip(*old(pos) as int)) == dec_actions(
                b@.skip(mid as int),
                n as nat,
            ),
            dec_actions(b@.skip(mid as int), n as nat) == (match dec_actions(
                b@.skip(*pos as int),
                (n - i) as nat,
            ) {
                Some((t, r)) => Some((acc@.map_values(|a: ButtonAction| a@) + t, r)),
                None => None::<(Seq<ButtonActionView>, Seq<u8>)>,
            }),
        decreases n - i,
    {
        let ghost cur = *pos;
        let v = match rd_action(b, pos) {
            Some(v) => v,
            None => {
                proof {
                    assert(dec_actions(b@.skip(cur as int), (n - i) as nat) is None);
                }
                return None;
            },
        };
        proof {
            let vs = acc@.map_values(|a: ButtonAction| a@);
            let d = dec_actions(b@.skip(*pos as int), (n - i - 1) as nat);
            assert(acc@.push(v).map_values(|a: ButtonAction| a@) =~= vs.push(v@));
            if d is Some {
                let t = (d->0).0;
                assert(vs + (seq![v@] + t) =~= vs.push(v@) + t);
            }
        }
        acc.push(v);
        i = i + 1;
    }
    proof {
        assert(dec_actions(b@.skip(*pos as int), 0) == Some(
            (Seq::<ButtonActionView>::empty(), b@.skip(*pos as int)),
        ));
        assert(acc@.map_values(|a: ButtonAction| a@) + Seq::<ButtonActionView>::empty()
            =~= acc@.map_values(|a: ButtonAction| a@));
    }
    Some(acc)
}

fn rd_device(b: &Vec<u8>, pos: &mut usize) -> (r: Option<Device>)
    requires
        *old(pos) <= b@.len(),
    ensures
        match r {
            Some(d) => *final(pos) <= b@.len() && dec_device(b@.skip(*old(pos) as int)) == Some(
                (d@, b@.skip(*final(pos) as int)),
            ),
            None => dec_device(b@.skip(*old(pos) as int)) is None,
        },
{
    let id = match rd_u128(b, pos) {
        Some(v) => v,
        None => {
            return None;
        },
    };
    let name = match rd_string(b, pos) {
        Some(v) => v,
        None => {
            return None;
        },
    };
    let cfg = match rd_opt_config(b, pos) {
        Some(v) => v,
        None => {
            return None;
        },
    };
    let buttons = match rd_button_list(b, pos) {
        Some(v) => v,
        None => {
            return None;
        },
    };
    let d = Device::new(DeviceId(id), name, cfg, buttons);
    proof {
        assert(d@ == (DeviceView {
            id: DeviceId(id),
            name: d.spec_name(),
            mouse_config: cfg,
            buttons: d.spec_buttons(),
        }));
    }
    Some(d)
}

/// Decode one binary frame into a client message. Succeeds exactly on
/// the frames that are one well-formed message with nothing left over.
pub fn decode_client_message(b: &Vec<u8>) -> (r: Option<ClientMessage>)
    ensures
        match r {
            Some(m) => spec_decode_client(b@) == Some(m@),
            None => spec_decode_client(b@) is None,
        },
{
    let mut pos: usize = 0;
    proof {
        assert(b@.skip(0) =~= b@);
    }
    let t = match rd_u8(b, &mut pos) {
        Some(v) => v,
        None => {
            return None;
        },
    };
    let m: ClientMessage = if t == 0 {
        let x = match rd_i32(b, &mut pos) {
            Some(v) => v,
            None => {
                return None;
            },
        };
        let y = match rd_i32(b, &mut pos) {
            Some(v) => v,
            None => {
                return None;
            },
        };
        ClientMessage::MouseRead(MouseRead::new(x, y))
    } else if t == 1 {
        match rd_action_list(b, &mut pos) {
            Some(v) => ClientMessage::ButtonActions(v),
            None => {
                return None;
            },
        }
    } else if t == 2 {
        let axis = match rd_u8(b, &mut pos) {
            Some(v) => v,
            None => {
                return None;
            },
        };
        let value = match rd_i32(b, &mut pos) {
            Some(v) => v,
            None => {
                return None;
            },
        };
        ClientMessage::AxisRead(AxisRead(axis, value))
    } else if t == 3 {
        let hat = match rd_u8(b, &mut pos) {
            Some(v) => v,
            None => {
                return None;
            },
        };
        let value = match rd_i32(b, &mut pos) {
            Some(v) => v,
            None => {
                return None;
            },
        };
        ClientMessage::HatRead(HatRead(hat, value))
    } else if t == 4 {
        match rd_device(b, &mut pos) {
            Some(d) => ClientMessage::Device(d),
            None => {
                return None;
            },
        }
    } else {
        return None;
    };
    if pos == b.len() {
        proof {
            assert(b@.skip(pos as int).len() == 0);
        }
        Some(m)
    } else {
        proof {
            assert(b@.skip(pos as int).len() > 0);
        }
        None
    }
}

} // verus!
