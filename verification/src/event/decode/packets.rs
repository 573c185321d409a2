//! What Windows input packets are read as.

use crate::event::decode::csi::Reading;
use crate::event::decode::ground::parsed;
use crate::event::decode::params::param_or;
use crate::event::decode::result::Parsed;
use crate::event::decode::sequences::{csi, lemma_packet, list, single_params};
use crate::event::decode::win32::{cks_modifiers, packet_key, virtual_key, Win32State};
use crate::event::key::{key_of, KeyCode, KeyModifiers};
use crate::event::EventView;
use vstd::prelude::*;

verus! {

/// The virtual key of a named key. The modifier keys have one for each side.
pub open spec fn key_number(code: KeyCode) -> Option<nat> {
    match code {
        KeyCode::Backspace => Some(0x08nat),
        KeyCode::Tab => Some(0x09nat),
        KeyCode::Enter => Some(0x0dnat),
        KeyCode::Pause => Some(0x13nat),
        KeyCode::CapsLock => Some(0x14nat),
        KeyCode::Escape => Some(0x1bnat),
        KeyCode::Space => Some(0x20nat),
        KeyCode::PageUp => Some(0x21nat),
        KeyCode::PageDown => Some(0x22nat),
        KeyCode::End => Some(0x23nat),
        KeyCode::Home => Some(0x24nat),
        KeyCode::Left => Some(0x25nat),
        KeyCode::Up => Some(0x26nat),
        KeyCode::Right => Some(0x27nat),
        KeyCode::Down => Some(0x28nat),
        KeyCode::Select => Some(0x29nat),
        KeyCode::PrintScreen => Some(0x2cnat),
        KeyCode::Insert => Some(0x2dnat),
        KeyCode::Delete => Some(0x2enat),
        KeyCode::LeftSuper => Some(0x5bnat),
        KeyCode::RightSuper => Some(0x5cnat),
        KeyCode::Menu => Some(0x5dnat),
        KeyCode::KpDigit(n) => if n <= 9 {
            Some((0x60 + n) as nat)
        } else {
            None
        },
        KeyCode::KpMultiply => Some(0x6anat),
        KeyCode::KpAdd => Some(0x6bnat),
        KeyCode::KpSeparator => Some(0x6cnat),
        KeyCode::KpSubtract => Some(0x6dnat),
        KeyCode::KpDecimal => Some(0x6enat),
        KeyCode::KpDivide => Some(0x6fnat),
        KeyCode::F(n) => if 1 <= n <= 24 {
            Some((0x6f + n) as nat)
        } else {
            None
        },
        KeyCode::NumLock => Some(0x90nat),
        KeyCode::ScrollLock => Some(0x91nat),
        KeyCode::LeftShift => Some(0xa0nat),
        KeyCode::RightShift => Some(0xa1nat),
        KeyCode::LeftCtrl => Some(0xa2nat),
        KeyCode::RightCtrl => Some(0xa3nat),
        KeyCode::LeftAlt => Some(0xa4nat),
        KeyCode::RightAlt => Some(0xa5nat),
        _ => None,
    }
}

/// One for what is held.
pub open spec fn one_if(held: bool) -> nat {
    if held {
        1
    } else {
        0
    }
}

/// The control-key state of modifiers: 1 for the right Alt key and 2 for the left one, 4 for
/// the right Control key and 8 for the left one, 16 for Shift, 32 for Num Lock, 64 for Scroll
/// Lock, and 128 for Caps Lock.
#[verifier::opaque]
pub open spec fn control_state(k: KeyModifiers, right: bool) -> nat {
    one_if(k.alt && right) + 2 * one_if(k.alt && !right) + 4 * one_if(k.ctrl && right) + 8 * one_if(
        k.ctrl && !right,
    ) + 16 * one_if(k.shift) + 32 * one_if(k.num_lock) + 64 * one_if(k.scroll_lock) + 128 * one_if(
        k.caps_lock,
    )
}

/// Whether a packet can carry these modifiers.
pub open spec fn packet_modifiers(k: KeyModifiers) -> bool {
    !k.super_key && !k.hyper && !k.meta
}

/// A number with its lowest bit split off.
proof fn lemma_low_bit(n: int, bit: int, rest: int)
    requires
        n == bit + 2 * rest,
        0 <= bit < 2,
    ensures
        n % 2 == bit,
        n / 2 == rest,
{
}

/// The control-key state is read as the modifiers it was written for.
pub proof fn law_control_state_round_trip(k: KeyModifiers, right: bool)
    requires
        packet_modifiers(k),
    ensures
        control_state(k, right) <= 255,
        cks_modifiers(control_state(k, right) as u32) == k,
{
    reveal(control_state);
    let m = control_state(k, right) as int;
    let a = one_if(k.alt && right) as int;
    let b = one_if(k.alt && !right) as int;
    let c = one_if(k.ctrl && right) as int;
    let d = one_if(k.ctrl && !right) as int;
    let e = one_if(k.shift) as int;
    let f = one_if(k.num_lock) as int;
    let g = one_if(k.scroll_lock) as int;
    let h = one_if(k.caps_lock) as int;
    let m6 = g + 2 * h;
    let m5 = f + 2 * m6;
    let m4 = e + 2 * m5;
    let m3 = d + 2 * m4;
    let m2 = c + 2 * m3;
    let m1 = b + 2 * m2;
    assert(m == a + 2 * m1);
    lemma_low_bit(m, a, m1);
    lemma_low_bit(m1, b, m2);
    lemma_low_bit(m2, c, m3);
    lemma_low_bit(m3, d, m4);
    lemma_low_bit(m4, e, m5);
    lemma_low_bit(m5, f, m6);
    lemma_low_bit(m6, g, h);
    assert(m / 4 == (m / 2) / 2);
    assert(m / 8 == (m / 4) / 2);
    assert(m / 16 == (m / 8) / 2);
    assert(m / 32 == (m / 16) / 2);
    assert(m / 64 == (m / 32) / 2);
    assert(m / 128 == (m / 64) / 2);
}

/// A press or a release, once or several times.
pub open spec fn packet_events(code: KeyCode, k: KeyModifiers, down: bool, times: nat) -> EventView {
    let one = if down {
        EventView::KeyPress(key_of(code, k))
    } else {
        EventView::KeyRelease(key_of(code, k))
    };
    if times == 1 {
        one
    } else {
        EventView::Multi(Seq::new(times, |i: int| one))
    }
}

/// The numbers of a packet.
pub open spec fn packet_numbers(
    vk: nat,
    scan: nat,
    ch: nat,
    down: bool,
    state: nat,
    times: nat,
) -> Seq<nat> {
    seq![vk, scan, ch, one_if(down), state, times]
}

/// The virtual key of a key names it, whatever the control-key state.
proof fn lemma_key_number(code: KeyCode, cks: u32)
    requires
        key_number(code) is Some,
    ensures
        virtual_key(key_number(code)->0 as int, cks) == Some(code),
        0 < key_number(code)->0 <= 0xa5,
{
}

/// The parameters of a packet.
proof fn lemma_packet_params(numbers: Seq<nat>)
    requires
        numbers.len() == 6,
        forall|i: int| 0 <= i < 6 ==> #[trigger] numbers[i] <= u32::MAX,
    ensures
        ({
            let p = single_params(numbers);
            &&& param_or(p, 0, 0) == numbers[0]
            &&& param_or(p, 2, 0) == numbers[2]
            &&& param_or(p, 3, 0) == numbers[3]
            &&& param_or(p, 4, 0) == numbers[4]
            &&& param_or(p, 5, 1) == numbers[5]
        }),
{
    let p = single_params(numbers);
    assert(p[0][0] == Some(numbers[0] as u32));
    assert(p[2][0] == Some(numbers[2] as u32));
    assert(p[3][0] == Some(numbers[3] as u32));
    assert(p[4][0] == Some(numbers[4] as u32));
    assert(p[5][0] == Some(numbers[5] as u32));
}

/// A packet of a named key is that key, pressed or released, with the modifiers of its
/// control-key state, as often as it repeats. The scan code and the character do not matter.
pub proof fn law_named_packets_round_trip(
    cfg: Reading,
    code: KeyCode,
    k: KeyModifiers,
    right: bool,
    down: bool,
    scan: u16,
    ch: u16,
    times: u16,
    rest: Seq<u8>,
)
    requires
        !cfg.expired,
        key_number(code) is Some,
        packet_modifiers(k),
        times >= 1,
    ensures
        ({
            let state = control_state(k, right);
            let s = csi(
                None,
                list(
                    packet_numbers(
                        key_number(code)->0,
                        scan as nat,
                        ch as nat,
                        down,
                        state,
                        times as nat,
                    ),
                ),
                0x5f,
            );
            parsed(cfg, s + rest) == Parsed::Packet(
                Some(packet_events(code, k, down, times as nat)),
                s.len() as int,
                Win32State { last_cks: state as u32, ..cfg.win32 },
            )
        }),
{
    let state = control_state(k, right);
    let numbers = packet_numbers(
        key_number(code)->0,
        scan as nat,
        ch as nat,
        down,
        state,
        times as nat,
    );
    law_control_state_round_trip(k, right);
    let held = if down {
        state as u32
    } else {
        cfg.win32.last_cks
    };
    lemma_key_number(code, held);
    lemma_packet(cfg, numbers, rest);
    lemma_packet_params(numbers);
    assert(packet_key(key_number(code)->0 as u32, ch as u32, held) == Some(code));
}

/// A packet of a character without a virtual key types that character.
pub proof fn law_character_packets_round_trip(
    cfg: Reading,
    c: char,
    k: KeyModifiers,
    right: bool,
    down: bool,
    scan: u16,
    times: u16,
    rest: Seq<u8>,
)
    requires
        !cfg.expired,
        0x20 <= c as u32,
        c as u32 <= 0xffff,
        c as u32 != 0x7f,
        packet_modifiers(k),
        times >= 1,
    ensures
        ({
            let state = control_state(k, right);
            let s = csi(
                None,
                list(
                    packet_numbers(0, scan as nat, c as nat, down, state, times as nat),
                ),
                0x5f,
            );
            parsed(cfg, s + rest) == Parsed::Packet(
                Some(packet_events(KeyCode::Char(c), k, down, times as nat)),
                s.len() as int,
                Win32State { last_cks: state as u32, ..cfg.win32 },
            )
        }),
{
    let state = control_state(k, right);
    let numbers = packet_numbers(0, scan as nat, c as nat, down, state, times as nat);
    law_control_state_round_trip(k, right);
    lemma_packet(cfg, numbers, rest);
    lemma_packet_params(numbers);
    let held = if down {
        state as u32
    } else {
        cfg.win32.last_cks
    };
    assert(packet_key(0, c as u32, held) == Some(KeyCode::Char(c)));
}

} // verus!
