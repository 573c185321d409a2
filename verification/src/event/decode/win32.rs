//! Windows input-mode packets, `CSI vk ; sc ; ch ; kd ; cks ; rep _`.
//!
//! A packet carries a virtual key, a scan code, a UTF-16 unit, whether the key
//! went down, the control-key state, and a repeat count. A character outside the
//! Basic Multilingual Plane arrives as two packets, one per surrogate.

use crate::event::decode::params::{param_or, Params};
use crate::event::decode::result::{ParseResult, Parsed};
use crate::event::key::{ascii_lower, key_of, scalar, to_ascii_lower, Key, KeyCode, KeyModifiers};
use crate::event::{events_view, lemma_multi_view, Event, EventView};
use vstd::prelude::*;

verus! {

/// What a packet leaves behind for the packets after it.
#[derive(Debug, Clone, Copy, PartialEq, Eq, Structural)]
pub struct Win32State {
    /// The control-key state of the last packet.
    pub last_cks: u32,
    /// A high surrogate waiting for its low half, from key-up packets.
    pub high_up: Option<u16>,
    /// A high surrogate waiting for its low half, from key-down packets.
    pub high_down: Option<u16>,
}

impl Win32State {
    /// The state before any packet.
    #[verifier::allow_in_spec]
    pub fn initial() -> Win32State
        returns
            (Win32State { last_cks: 0, high_up: None, high_down: None }),
    {
        Win32State { last_cks: 0, high_up: None, high_down: None }
    }

    /// The buffered high surrogate of key-down or key-up packets.
    #[verifier::allow_in_spec]
    pub fn high(self, down: bool) -> Option<u16>
        returns
            (if down {
                self.high_down
            } else {
                self.high_up
            }),
    {
        if down {
            self.high_down
        } else {
            self.high_up
        }
    }

    /// The state with another buffered high surrogate.
    #[verifier::allow_in_spec]
    pub fn with_high(self, down: bool, high: Option<u16>) -> Win32State
        returns
            (if down {
                Win32State { high_down: high, ..self }
            } else {
                Win32State { high_up: high, ..self }
            }),
    {
        if down {
            Win32State { high_down: high, ..self }
        } else {
            Win32State { high_up: high, ..self }
        }
    }
}

/// The modifiers of a control-key state.
#[verifier::allow_in_spec]
pub fn cks_modifiers(cks: u32) -> KeyModifiers
    returns
        (KeyModifiers {
            shift: (cks / 16) % 2 == 1,
            alt: cks % 2 == 1 || (cks / 2) % 2 == 1,
            ctrl: (cks / 4) % 2 == 1 || (cks / 8) % 2 == 1,
            num_lock: (cks / 32) % 2 == 1,
            scroll_lock: (cks / 64) % 2 == 1,
            caps_lock: (cks / 128) % 2 == 1,
            ..KeyModifiers::empty()
        }),
{
    KeyModifiers {
        shift: (cks / 16) % 2 == 1,
        alt: cks % 2 == 1 || (cks / 2) % 2 == 1,
        ctrl: (cks / 4) % 2 == 1 || (cks / 8) % 2 == 1,
        num_lock: (cks / 32) % 2 == 1,
        scroll_lock: (cks / 64) % 2 == 1,
        caps_lock: (cks / 128) % 2 == 1,
        ..KeyModifiers::empty()
    }
}

/// The named key of a virtual key. Control and Alt are told left from right by
/// the control-key state `cks`.
pub open spec fn virtual_key(vk: int, cks: u32) -> Option<KeyCode> {
    if vk == 0x11 {
        if (cks / 4) % 2 == 1 && (cks / 8) % 2 == 0 {
            Some(KeyCode::RightCtrl)
        } else {
            Some(KeyCode::LeftCtrl)
        }
    } else if vk == 0x12 {
        if cks % 2 == 1 && (cks / 2) % 2 == 0 {
            Some(KeyCode::RightAlt)
        } else {
            Some(KeyCode::LeftAlt)
        }
    } else if 0x60 <= vk <= 0x69 {
        Some(KeyCode::KpDigit((vk - 0x60) as u8))
    } else if 0x70 <= vk <= 0x87 {
        Some(KeyCode::F((vk - 0x6f) as u8))
    } else if vk == 0x08 {
        Some(KeyCode::Backspace)
    } else if vk == 0x09 {
        Some(KeyCode::Tab)
    } else if vk == 0x0d {
        Some(KeyCode::Enter)
    } else if vk == 0x10 {
        Some(KeyCode::LeftShift)
    } else if vk == 0x13 {
        Some(KeyCode::Pause)
    } else if vk == 0x14 {
        Some(KeyCode::CapsLock)
    } else if vk == 0x1b {
        Some(KeyCode::Escape)
    } else if vk == 0x20 {
        Some(KeyCode::Space)
    } else if vk == 0x21 {
        Some(KeyCode::PageUp)
    } else if vk == 0x22 {
        Some(KeyCode::PageDown)
    } else if vk == 0x23 {
        Some(KeyCode::End)
    } else if vk == 0x24 {
        Some(KeyCode::Home)
    } else if vk == 0x25 {
        Some(KeyCode::Left)
    } else if vk == 0x26 {
        Some(KeyCode::Up)
    } else if vk == 0x27 {
        Some(KeyCode::Right)
    } else if vk == 0x28 {
        Some(KeyCode::Down)
    } else if vk == 0x29 {
        Some(KeyCode::Select)
    } else if vk == 0x2c {
        Some(KeyCode::PrintScreen)
    } else if vk == 0x2d {
        Some(KeyCode::Insert)
    } else if vk == 0x2e {
        Some(KeyCode::Delete)
    } else if vk == 0x5b {
        Some(KeyCode::LeftSuper)
    } else if vk == 0x5c {
        Some(KeyCode::RightSuper)
    } else if vk == 0x5d {
        Some(KeyCode::Menu)
    } else if vk == 0x6a {
        Some(KeyCode::KpMultiply)
    } else if vk == 0x6b {
        Some(KeyCode::KpAdd)
    } else if vk == 0x6c {
        Some(KeyCode::KpSeparator)
    } else if vk == 0x6d {
        Some(KeyCode::KpSubtract)
    } else if vk == 0x6e {
        Some(KeyCode::KpDecimal)
    } else if vk == 0x6f {
        Some(KeyCode::KpDivide)
    } else if vk == 0x90 {
        Some(KeyCode::NumLock)
    } else if vk == 0x91 {
        Some(KeyCode::ScrollLock)
    } else if vk == 0xa0 {
        Some(KeyCode::LeftShift)
    } else if vk == 0xa1 {
        Some(KeyCode::RightShift)
    } else if vk == 0xa2 {
        Some(KeyCode::LeftCtrl)
    } else if vk == 0xa3 {
        Some(KeyCode::RightCtrl)
    } else if vk == 0xa4 {
        Some(KeyCode::LeftAlt)
    } else if vk == 0xa5 {
        Some(KeyCode::RightAlt)
    } else {
        None
    }
}

fn read_virtual_key(vk: u32, cks: u32) -> (r: Option<KeyCode>)
    ensures
        r == virtual_key(vk as int, cks),
{
    match vk {
        0x11 => if (cks / 4) % 2 == 1 && (cks / 8) % 2 == 0 {
            Some(KeyCode::RightCtrl)
        } else {
            Some(KeyCode::LeftCtrl)
        },
        0x12 => if cks % 2 == 1 && (cks / 2) % 2 == 0 {
            Some(KeyCode::RightAlt)
        } else {
            Some(KeyCode::LeftAlt)
        },
        0x60..=0x69 => Some(KeyCode::KpDigit((vk - 0x60) as u8)),
        0x70..=0x87 => Some(KeyCode::F((vk - 0x6f) as u8)),
        0x08 => Some(KeyCode::Backspace),
        0x09 => Some(KeyCode::Tab),
        0x0d => Some(KeyCode::Enter),
        0x10 => Some(KeyCode::LeftShift),
        0x13 => Some(KeyCode::Pause),
        0x14 => Some(KeyCode::CapsLock),
        0x1b => Some(KeyCode::Escape),
        0x20 => Some(KeyCode::Space),
        0x21 => Some(KeyCode::PageUp),
        0x22 => Some(KeyCode::PageDown),
        0x23 => Some(KeyCode::End),
        0x24 => Some(KeyCode::Home),
        0x25 => Some(KeyCode::Left),
        0x26 => Some(KeyCode::Up),
        0x27 => Some(KeyCode::Right),
        0x28 => Some(KeyCode::Down),
        0x29 => Some(KeyCode::Select),
        0x2c => Some(KeyCode::PrintScreen),
        0x2d => Some(KeyCode::Insert),
        0x2e => Some(KeyCode::Delete),
        0x5b => Some(KeyCode::LeftSuper),
        0x5c => Some(KeyCode::RightSuper),
        0x5d => Some(KeyCode::Menu),
        0x6a => Some(KeyCode::KpMultiply),
        0x6b => Some(KeyCode::KpAdd),
        0x6c => Some(KeyCode::KpSeparator),
        0x6d => Some(KeyCode::KpSubtract),
        0x6e => Some(KeyCode::KpDecimal),
        0x6f => Some(KeyCode::KpDivide),
        0x90 => Some(KeyCode::NumLock),
        0x91 => Some(KeyCode::ScrollLock),
        0xa0 => Some(KeyCode::LeftShift),
        0xa1 => Some(KeyCode::RightShift),
        0xa2 => Some(KeyCode::LeftCtrl),
        0xa3 => Some(KeyCode::RightCtrl),
        0xa4 => Some(KeyCode::LeftAlt),
        0xa5 => Some(KeyCode::RightAlt),
        _ => None,
    }
}

/// The key of a packet that is no surrogate: its named key, else the key that
/// types its character, else the letter or digit of its virtual key.
pub open spec fn packet_key(vk: u32, ch: u32, cks: u32) -> Option<KeyCode> {
    if virtual_key(vk as int, cks) is Some {
        virtual_key(vk as int, cks)
    } else if ch >= 0x20 && ch != 0x7f && scalar(ch as int) is Some {
        Some(KeyCode::Char(scalar(ch as int)->0))
    } else if 0x30 <= vk <= 0x39 || 0x41 <= vk <= 0x5a {
        Some(KeyCode::Char(ascii_lower(vk as u8)))
    } else {
        None
    }
}

fn read_packet_key(vk: u32, ch: u32, cks: u32) -> (r: Option<KeyCode>)
    ensures
        r == packet_key(vk, ch, cks),
{
    if let Some(code) = read_virtual_key(vk, cks) {
        return Some(code);
    }
    if ch >= 0x20 && ch != 0x7f {
        if let Some(c) = char::from_u32(ch) {
            return Some(KeyCode::Char(c));
        }
    }
    if vk >= 0x30 && vk <= 0x39 || vk >= 0x41 && vk <= 0x5a {
        return Some(KeyCode::Char(to_ascii_lower(vk as u8)));
    }
    None
}

/// How often the key of a packet repeats: a 16-bit count, at least one.
pub open spec fn repeat_count(rep: u32) -> int {
    if rep < 1 {
        1
    } else if rep > 0xffff {
        0xffff
    } else {
        rep as int
    }
}

/// A key event of a packet.
pub open spec fn packet_event(code: KeyCode, modifiers: KeyModifiers, down: bool) -> EventView {
    if down {
        EventView::KeyPress(key_of(code, modifiers))
    } else {
        EventView::KeyRelease(key_of(code, modifiers))
    }
}

/// One event, or a group of `n` equal events.
pub open spec fn repeated(e: EventView, n: int) -> EventView {
    if n == 1 {
        e
    } else {
        EventView::Multi(Seq::new(n as nat, |i: int| e))
    }
}

/// The outcome of a packet that took `n` bytes, in packet state `state`.
pub open spec fn packet_parsed(
    params: Seq<Seq<Option<u32>>>,
    state: Win32State,
    n: int,
) -> Parsed {
    let vk = param_or(params, 0, 0);
    let ch = param_or(params, 2, 0);
    let down = param_or(params, 3, 0) != 0;
    let cks = param_or(params, 4, 0);
    let times = repeat_count(param_or(params, 5, 1));
    let modifiers = cks_modifiers(cks);
    let next = Win32State { last_cks: cks, ..state };
    if vk == 0 && 0xd800 <= ch <= 0xdbff {
        Parsed::Packet(None, n, next.with_high(down, Some(ch as u16)))
    } else if vk == 0 && 0xdc00 <= ch <= 0xdfff {
        match state.high(down) {
            Some(high) => Parsed::Packet(
                Some(
                    repeated(
                        packet_event(
                            KeyCode::Char(surrogate_pair(high as int, ch as int)),
                            modifiers,
                            down,
                        ),
                        times,
                    ),
                ),
                n,
                next.with_high(down, None),
            ),
            None => Parsed::Packet(None, n, next),
        }
    } else {
        let held = if down {
            cks
        } else {
            state.last_cks
        };
        match packet_key(vk, ch, held) {
            Some(code) => Parsed::Packet(
                Some(repeated(packet_event(code, modifiers, down), times)),
                n,
                next,
            ),
            None => Parsed::Packet(None, n, next),
        }
    }
}

/// The character of a surrogate pair.
pub open spec fn surrogate_pair(high: int, low: int) -> char {
    if 0xd800 <= high <= 0xdbff {
        (0x1_0000 + (high - 0xd800) * 0x400 + (low - 0xdc00)) as char
    } else {
        '\u{fffd}'
    }
}

fn read_surrogate_pair(high: u16, low: u32) -> (r: char)
    requires
        0xdc00 <= low <= 0xdfff,
    ensures
        r == surrogate_pair(high as int, low as int),
{
    if high >= 0xd800 && high <= 0xdbff {
        let cp: u32 = 0x1_0000 + (high - 0xd800) as u32 * 0x400 + (low - 0xdc00);
        match char::from_u32(cp) {
            Some(c) => c,
            None => '\u{fffd}',
        }
    } else {
        '\u{fffd}'
    }
}

fn make_packet_event(code: KeyCode, modifiers: KeyModifiers, down: bool) -> (r: Event)
    ensures
        r@ == packet_event(code, modifiers, down),
{
    let key = Key::of(code, modifiers);
    if down {
        Event::KeyPress(key)
    } else {
        Event::KeyRelease(key)
    }
}

/// The event of a key that repeats.
fn repeat_event(code: KeyCode, modifiers: KeyModifiers, down: bool, rep: u32) -> (r: Event)
    ensures
        r@ == repeated(packet_event(code, modifiers, down), repeat_count(rep)),
{
    let times: usize = if rep < 1 {
        1
    } else if rep > 0xffff {
        0xffff
    } else {
        rep as usize
    };
    if times == 1 {
        return make_packet_event(code, modifiers, down);
    }
    let ghost one = packet_event(code, modifiers, down);
    let mut events: Vec<Event> = Vec::new();
    let mut i: usize = 0;
    while i < times
        invariant
            0 <= i <= times,
            one == packet_event(code, modifiers, down),
            events@.len() == i,
            forall|k: int| 0 <= k < i ==> (#[trigger] events@[k])@ == one,
        decreases times - i,
    {
        events.push(make_packet_event(code, modifiers, down));
        i += 1;
    }
    proof {
        lemma_multi_view(events);
        assert(events_view(events@) =~= Seq::new(times as nat, |k: int| one));
    }
    Event::Multi(events)
}

/// Decode a packet that took `consumed` bytes.
pub fn dispatch_win32_input(params: &Params, state: Win32State, consumed: usize) -> (r: ParseResult)
    requires
        params.well_formed(),
    ensures
        r@ == packet_parsed(params@, state, consumed as int),
{
    let vk: u32 = params.get_or(0, 0);
    let ch: u32 = params.get_or(2, 0);
    let down = params.get_or(3, 0) != 0;
    let cks: u32 = params.get_or(4, 0);
    let rep: u32 = params.get_or(5, 1);
    let modifiers = cks_modifiers(cks);
    let next = Win32State { last_cks: cks, ..state };
    if vk == 0 && ch >= 0xd800 && ch <= 0xdbff {
        return ParseResult::Packet(None, consumed, next.with_high(down, Some(ch as u16)));
    }
    if vk == 0 && ch >= 0xdc00 && ch <= 0xdfff {
        return match state.high(down) {
            Some(high) => {
                let c = read_surrogate_pair(high, ch);
                let event = repeat_event(KeyCode::Char(c), modifiers, down, rep);
                ParseResult::Packet(Some(event), consumed, next.with_high(down, None))
            },
            None => ParseResult::Packet(None, consumed, next),
        };
    }
    let held: u32 = if down {
        cks
    } else {
        state.last_cks
    };
    match read_packet_key(vk, ch, held) {
        Some(code) => ParseResult::Packet(
            Some(repeat_event(code, modifiers, down, rep)),
            consumed,
            next,
        ),
        None => ParseResult::Packet(None, consumed, next),
    }
}

/// A surrogate pair sent as two packets decodes to one press of its character,
/// and leaves nothing buffered.
pub proof fn law_surrogate_packets_combine(
    first: Seq<Seq<Option<u32>>>,
    second: Seq<Seq<Option<u32>>>,
    state: Win32State,
    n: int,
    m: int,
)
    requires
        param_or(first, 0, 0) == 0,
        param_or(second, 0, 0) == 0,
        0xd800 <= param_or(first, 2, 0) <= 0xdbff,
        0xdc00 <= param_or(second, 2, 0) <= 0xdfff,
        param_or(first, 3, 0) == 1,
        param_or(second, 3, 0) == 1,
        param_or(second, 5, 1) == 1,
    ensures
        ({
            let between = packet_parsed(first, state, n);
            let after = packet_parsed(second, between->Packet_2, m);
            let c = (0x1_0000 + (param_or(first, 2, 0) - 0xd800) * 0x400 + (param_or(second, 2, 0)
                - 0xdc00)) as char;
            &&& between matches Parsed::Packet(None, _, _)
            &&& after->Packet_0 == Some(
                EventView::KeyPress(
                    key_of(KeyCode::Char(c), cks_modifiers(param_or(second, 4, 0))),
                ),
            )
            &&& after->Packet_2.high_down is None
        }),
{
}

} // verus!
