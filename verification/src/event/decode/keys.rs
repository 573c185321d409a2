//! Key tables and the encodings of keys in control sequences.

use crate::bytes::ESC;
use crate::event::decode::flags::DecoderFlags;
use crate::event::decode::params::{param_or, sub_param, Params};
use crate::event::decode::result::optional_view;
use crate::event::key::{
    functional_key, key_of, normalize, read_functional_key, scalar, text_view, Key, KeyCode,
    KeyModifiers, KeyView,
};
use crate::event::{Event, EventView};
use vstd::prelude::*;

verus! {

/// Whether `b` is an 8-bit C1 byte that introduces a sequence: SS3, DCS, SOS,
/// CSI, OSC, PM or APC.
#[verifier::allow_in_spec]
pub fn is_c1_introducer(b: u8) -> bool
    returns
        (b == 0x8f || b == 0x90 || b == 0x98 || b == 0x9b || b == 0x9d || b == 0x9e || b == 0x9f),
{
    b == 0x8f || b == 0x90 || b == 0x98 || b == 0x9b || b == 0x9d || b == 0x9e || b == 0x9f
}

/// How long the introducer of a sequence is: `ESC` and a byte, or one C1 byte.
#[verifier::allow_in_spec]
pub fn intro_len(b0: u8) -> usize
    returns
        (if b0 == ESC {
            2usize
        } else {
            1usize
        }),
{
    if b0 == ESC {
        2
    } else {
        1
    }
}

/// The modifiers of an xterm modifier parameter, which is one more than the mask.
#[verifier::allow_in_spec]
pub fn xterm_modifiers(v: u16) -> KeyModifiers
    returns
        KeyModifiers::from_wire(
            if v == 0 {
                0
            } else {
                (v - 1) as u32
            },
        ),
{
    KeyModifiers::from_wire(
        if v == 0 {
            0
        } else {
            (v - 1) as u32
        },
    )
}

/// The modifiers of a key sequence: its second parameter.
pub open spec fn csi_modifiers(params: Seq<Seq<Option<u32>>>) -> KeyModifiers {
    xterm_modifiers(param_or(params, 1, 1) as u16)
}

/// What happened to the key: press, repeat or release.
#[derive(Debug, Clone, Copy, PartialEq, Eq, Structural)]
pub enum Phase {
    /// The key went down.
    Press,
    /// The key is held.
    Repeat,
    /// The key went up.
    Release,
}

/// The phase of a key sequence: the first sub-parameter of its second parameter.
pub open spec fn csi_phase(params: Seq<Seq<Option<u32>>>) -> Phase {
    let v = sub_param(params, 1, 1);
    if v == Some(2u32) {
        Phase::Repeat
    } else if v == Some(3u32) {
        Phase::Release
    } else {
        Phase::Press
    }
}

/// The event of a key in a phase.
pub open spec fn phase_event(k: KeyView, phase: Phase) -> EventView {
    match phase {
        Phase::Press => EventView::KeyPress(k),
        Phase::Repeat => EventView::KeyRepeat(k),
        Phase::Release => EventView::KeyRelease(k),
    }
}

/// Compute [`phase_event`].
pub fn key_event_for_phase(key: Key, phase: Phase) -> (r: Event)
    ensures
        r@ == phase_event(key@, phase),
{
    match phase {
        Phase::Press => Event::KeyPress(key),
        Phase::Repeat => Event::KeyRepeat(key),
        Phase::Release => Event::KeyRelease(key),
    }
}

/// Compute [`csi_modifiers`].
pub fn read_modifiers(params: &Params) -> (r: KeyModifiers)
    requires
        params.well_formed(),
    ensures
        r == csi_modifiers(params@),
{
    let v: u16 = #[verifier::truncate]
    (params.get_or(1, 1) as u16);
    xterm_modifiers(v)
}

/// Compute [`csi_phase`].
pub fn read_phase(params: &Params) -> (r: Phase)
    ensures
        r == csi_phase(params@),
{
    match params.sub(1, 1) {
        Some(2) => Phase::Repeat,
        Some(3) => Phase::Release,
        _ => Phase::Press,
    }
}

/// The key that a VT220 key number names.
pub open spec fn numbered_key(n: int) -> Option<KeyCode> {
    if n == 1 {
        Some(KeyCode::Home)
    } else if n == 2 {
        Some(KeyCode::Insert)
    } else if n == 3 {
        Some(KeyCode::Delete)
    } else if n == 4 {
        Some(KeyCode::End)
    } else if n == 5 {
        Some(KeyCode::PageUp)
    } else if n == 6 {
        Some(KeyCode::PageDown)
    } else if n == 7 {
        Some(KeyCode::Home)
    } else if n == 8 {
        Some(KeyCode::End)
    } else if 11 <= n <= 15 {
        Some(KeyCode::F((n - 11 + 1) as u8))
    } else if 17 <= n <= 21 {
        Some(KeyCode::F((n - 17 + 6) as u8))
    } else if 23 <= n <= 26 {
        Some(KeyCode::F((n - 23 + 11) as u8))
    } else if 28 <= n <= 29 {
        Some(KeyCode::F((n - 28 + 15) as u8))
    } else if 31 <= n <= 34 {
        Some(KeyCode::F((n - 31 + 17) as u8))
    } else {
        None
    }
}

/// The key that a VT220 key number names, with the choice between Home and Find,
/// and between End and Select, that the flags make.
pub open spec fn tilde_key(n: int, flags: DecoderFlags) -> Option<KeyCode> {
    if n == 1 && flags.find_key {
        Some(KeyCode::Find)
    } else if n == 4 && flags.select_key {
        Some(KeyCode::Select)
    } else {
        numbered_key(n)
    }
}

/// Compute [`tilde_key`].
pub fn read_tilde_key(n: u32, flags: DecoderFlags) -> (r: Option<KeyCode>)
    ensures
        r == tilde_key(n as int, flags),
{
    match n {
        1 => if flags.find_key {
            Some(KeyCode::Find)
        } else {
            Some(KeyCode::Home)
        },
        4 => if flags.select_key {
            Some(KeyCode::Select)
        } else {
            Some(KeyCode::End)
        },
        2 => Some(KeyCode::Insert),
        3 => Some(KeyCode::Delete),
        5 => Some(KeyCode::PageUp),
        6 => Some(KeyCode::PageDown),
        7 => Some(KeyCode::Home),
        8 => Some(KeyCode::End),
        11..=15 => Some(KeyCode::F((n - 11 + 1) as u8)),
        17..=21 => Some(KeyCode::F((n - 17 + 6) as u8)),
        23..=26 => Some(KeyCode::F((n - 23 + 11) as u8)),
        28..=29 => Some(KeyCode::F((n - 28 + 15) as u8)),
        31..=34 => Some(KeyCode::F((n - 31 + 17) as u8)),
        _ => None,
    }
}

/// The key of a Kitty key code: a functional key, a control key, or the key that
/// types a character.
pub open spec fn kitty_code(n: int) -> Option<KeyCode> {
    if n == 9 {
        Some(KeyCode::Tab)
    } else if n == 13 {
        Some(KeyCode::Enter)
    } else if n == 27 {
        Some(KeyCode::Escape)
    } else if n == 32 {
        Some(KeyCode::Space)
    } else if n == 8 || n == 127 {
        Some(KeyCode::Backspace)
    } else if functional_key(n) is Some {
        functional_key(n)
    } else {
        char_key(n)
    }
}

/// The key that types the character of a code point.
pub open spec fn char_key(n: int) -> Option<KeyCode> {
    match scalar(n) {
        Some(c) => Some(KeyCode::Char(c)),
        None => None,
    }
}

fn read_char_key(n: u32) -> (r: Option<KeyCode>)
    ensures
        r == char_key(n as int),
{
    match char::from_u32(n) {
        Some(c) => Some(KeyCode::Char(c)),
        None => None,
    }
}

fn read_kitty_code(n: u32) -> (r: Option<KeyCode>)
    ensures
        r == kitty_code(n as int),
{
    match n {
        9 => Some(KeyCode::Tab),
        13 => Some(KeyCode::Enter),
        27 => Some(KeyCode::Escape),
        32 => Some(KeyCode::Space),
        8 | 127 => Some(KeyCode::Backspace),
        _ => match read_functional_key(n) {
            Some(code) => Some(code),
            None => read_char_key(n),
        },
    }
}

/// The character of an optional code point.
pub open spec fn optional_scalar(v: Option<u32>) -> Option<char> {
    match v {
        Some(n) => scalar(n as int),
        None => None,
    }
}

fn read_optional_scalar(v: Option<u32>) -> (r: Option<char>)
    ensures
        r == optional_scalar(v),
{
    match v {
        Some(n) => char::from_u32(n),
        None => None,
    }
}

/// The text that a list of code points spells; what is no character is left out.
pub open spec fn spelled(values: Seq<Option<u32>>) -> Seq<char>
    decreases values.len(),
{
    if values.len() == 0 {
        Seq::empty()
    } else {
        match optional_scalar(values.last()) {
            Some(c) => spelled(values.drop_last()).push(c),
            None => spelled(values.drop_last()),
        }
    }
}

/// The associated text of a Kitty key: what its third parameter spells.
pub open spec fn kitty_text(params: Seq<Seq<Option<u32>>>) -> Option<Seq<char>> {
    if params.len() > 2 && spelled(params[2]).len() > 0 {
        Some(spelled(params[2]))
    } else {
        None
    }
}

/// The event of `CSI code:shifted:base ; modifiers:phase ; text u`.
pub open spec fn kitty_event(params: Seq<Seq<Option<u32>>>) -> Option<EventView> {
    match sub_param(params, 0, 0) {
        Some(n) => match kitty_code(n as int) {
            Some(code) => Some(
                phase_event(
                    normalize(
                        KeyView {
                            code,
                            modifiers: csi_modifiers(params),
                            text: kitty_text(params),
                            shifted_key: optional_scalar(sub_param(params, 0, 1)),
                            base_key: optional_scalar(sub_param(params, 0, 2)),
                        },
                    ),
                    csi_phase(params),
                ),
            ),
            None => None,
        },
        None => None,
    }
}

fn read_kitty_text(params: &Params) -> (r: Option<String>)
    ensures
        text_view(r) == kitty_text(params@),
{
    if params.len() <= 2 {
        return None;
    }
    let n: usize = params.sub_len(2);
    let mut text: String = String::new();
    let mut empty = true;
    let mut i: usize = 0;
    while i < n
        invariant
            0 <= i <= n,
            params@.len() > 2,
            n == params@[2].len(),
            text@ == spelled(params@[2].subrange(0, i as int)),
            empty == (text@.len() == 0),
        decreases n - i,
    {
        proof {
            let next = params@[2].subrange(0, i + 1);
            assert(next.drop_last() =~= params@[2].subrange(0, i as int));
            assert(next.last() == params@[2][i as int]);
        }
        if let Some(c) = read_optional_scalar(params.sub(2, i)) {
            text.push(c);
            empty = false;
        }
        i += 1;
    }
    assert(params@[2].subrange(0, n as int) =~= params@[2]);
    if empty {
        None
    } else {
        Some(text)
    }
}

/// Decode a Kitty key sequence.
pub fn decode_kitty_key(params: &Params) -> (r: Option<Event>)
    requires
        params.well_formed(),
    ensures
        optional_view(r) == kitty_event(params@),
{
    let n: u32 = match params.sub(0, 0) {
        Some(n) => n,
        None => return None,
    };
    let code = match read_kitty_code(n) {
        Some(code) => code,
        None => return None,
    };
    let key = Key {
        code,
        modifiers: read_modifiers(params),
        text: read_kitty_text(params),
        shifted_key: read_optional_scalar(params.sub(0, 1)),
        base_key: read_optional_scalar(params.sub(0, 2)),
    };
    Some(key_event_for_phase(key.normalized(), read_phase(params)))
}

/// The key of the third parameter of a modifyOtherKeys sequence.
pub open spec fn other_key(n: int) -> Option<KeyCode> {
    if n == 0x08 || n == 0x7f {
        Some(KeyCode::Backspace)
    } else if n == 0x09 {
        Some(KeyCode::Tab)
    } else if n == 0x0d {
        Some(KeyCode::Enter)
    } else if n == 0x1b {
        Some(KeyCode::Escape)
    } else if n == 0x20 {
        Some(KeyCode::Space)
    } else {
        char_key(n)
    }
}

fn read_other_key(n: u32) -> (r: Option<KeyCode>)
    ensures
        r == other_key(n as int),
{
    match n {
        0x08 | 0x7f => Some(KeyCode::Backspace),
        0x09 => Some(KeyCode::Tab),
        0x0d => Some(KeyCode::Enter),
        0x1b => Some(KeyCode::Escape),
        0x20 => Some(KeyCode::Space),
        _ => read_char_key(n),
    }
}

/// The event of `CSI … ~`: a modifyOtherKeys key, a paste boundary, or a numbered
/// key.
pub open spec fn tilde_event(
    params: Seq<Seq<Option<u32>>>,
    flags: DecoderFlags,
) -> Option<EventView> {
    let n = param_or(params, 0, 0);
    if n == 27 && params.len() >= 3 {
        match other_key(param_or(params, 2, 0) as int) {
            Some(code) => Some(EventView::KeyPress(key_of(code, csi_modifiers(params)))),
            None => None,
        }
    } else if n == 200 {
        Some(EventView::PasteStart)
    } else if n == 201 {
        Some(EventView::PasteEnd)
    } else {
        match tilde_key(n as int, flags) {
            Some(code) => Some(
                phase_event(key_of(code, csi_modifiers(params)), csi_phase(params)),
            ),
            None => None,
        }
    }
}

/// Recognize the `CSI Pn ~` family.
pub fn recognize_tilde(params: &Params, flags: DecoderFlags) -> (r: Option<Event>)
    requires
        params.well_formed(),
    ensures
        optional_view(r) == tilde_event(params@, flags),
{
    let n: u32 = params.get_or(0, 0);
    if n == 27 && params.len() >= 3 {
        return match read_other_key(params.get_or(2, 0)) {
            Some(code) => Some(Event::KeyPress(Key::of(code, read_modifiers(params)))),
            None => None,
        };
    }
    if n == 200 {
        return Some(Event::PasteStart);
    }
    if n == 201 {
        return Some(Event::PasteEnd);
    }
    match read_tilde_key(n, flags) {
        Some(code) => Some(
            key_event_for_phase(Key::of(code, read_modifiers(params)), read_phase(params)),
        ),
        None => None,
    }
}

/// The key of a cursor or function key final byte.
pub open spec fn cursor_key(final_byte: u8) -> Option<KeyCode> {
    if final_byte == 0x41 {
        Some(KeyCode::Up)
    } else if final_byte == 0x42 {
        Some(KeyCode::Down)
    } else if final_byte == 0x43 {
        Some(KeyCode::Right)
    } else if final_byte == 0x44 {
        Some(KeyCode::Left)
    } else if final_byte == 0x45 {
        Some(KeyCode::KpBegin)
    } else if final_byte == 0x46 {
        Some(KeyCode::End)
    } else if final_byte == 0x48 {
        Some(KeyCode::Home)
    } else if final_byte == 0x50 {
        Some(KeyCode::F(1))
    } else if final_byte == 0x51 {
        Some(KeyCode::F(2))
    } else if final_byte == 0x53 {
        Some(KeyCode::F(4))
    } else {
        None
    }
}

/// Compute [`cursor_key`].
pub fn read_cursor_key(final_byte: u8) -> (r: Option<KeyCode>)
    ensures
        r == cursor_key(final_byte),
{
    match final_byte {
        0x41 => Some(KeyCode::Up),
        0x42 => Some(KeyCode::Down),
        0x43 => Some(KeyCode::Right),
        0x44 => Some(KeyCode::Left),
        0x45 => Some(KeyCode::KpBegin),
        0x46 => Some(KeyCode::End),
        0x48 => Some(KeyCode::Home),
        0x50 => Some(KeyCode::F(1)),
        0x51 => Some(KeyCode::F(2)),
        0x53 => Some(KeyCode::F(4)),
        _ => None,
    }
}

/// The arrow of a lower-case URxvt arrow byte: `a` to `d`.
pub open spec fn urxvt_arrow(b: u8) -> Option<KeyCode> {
    if 0x61 <= b <= 0x64 {
        cursor_key((b - 32) as u8)
    } else {
        None
    }
}

/// Compute [`urxvt_arrow`].
pub fn read_urxvt_arrow(b: u8) -> (r: Option<KeyCode>)
    ensures
        r == urxvt_arrow(b),
{
    if b >= 0x61 && b <= 0x64 {
        read_cursor_key(b - 32)
    } else {
        None
    }
}

/// The modifiers that a URxvt key suffix stands for: `$` Shift, `^` Control, `@`
/// both.
pub open spec fn urxvt_suffix(b: u8) -> Option<KeyModifiers> {
    if b == 0x24 {
        Some(KeyModifiers::shift())
    } else if b == 0x5e {
        Some(KeyModifiers::ctrl())
    } else if b == 0x40 {
        Some(KeyModifiers::ctrl().union(KeyModifiers::shift()))
    } else {
        None
    }
}

/// Compute [`urxvt_suffix`].
pub fn read_urxvt_suffix(b: u8) -> (r: Option<KeyModifiers>)
    ensures
        r == urxvt_suffix(b),
{
    match b {
        0x24 => Some(KeyModifiers::shift()),
        0x5e => Some(KeyModifiers::ctrl()),
        0x40 => Some(KeyModifiers::ctrl().union(KeyModifiers::shift())),
        _ => None,
    }
}

/// The legacy URxvt key of a control sequence: a lower-case arrow, or a key
/// number with a modifier suffix.
pub open spec fn legacy_key(
    params: Seq<Seq<Option<u32>>>,
    final_byte: u8,
    flags: DecoderFlags,
) -> Option<EventView> {
    if params.len() == 0 && urxvt_arrow(final_byte) is Some {
        Some(EventView::KeyPress(key_of(urxvt_arrow(final_byte)->0, KeyModifiers::shift())))
    } else if params.len() == 1 && urxvt_suffix(final_byte) is Some && tilde_key(
        param_or(params, 0, 0) as int,
        flags,
    ) is Some {
        Some(
            EventView::KeyPress(
                key_of(
                    tilde_key(param_or(params, 0, 0) as int, flags)->0,
                    urxvt_suffix(final_byte)->0,
                ),
            ),
        )
    } else {
        None
    }
}

/// Look up a legacy URxvt key.
pub fn lookup_legacy_key(params: &Params, final_byte: u8, flags: DecoderFlags) -> (r: Option<Event>)
    requires
        params.well_formed(),
    ensures
        optional_view(r) == legacy_key(params@, final_byte, flags),
{
    if params.len() == 0 {
        return match read_urxvt_arrow(final_byte) {
            Some(code) => Some(Event::KeyPress(Key::of(code, KeyModifiers::shift()))),
            None => None,
        };
    }
    if params.len() == 1 {
        if let Some(modifiers) = read_urxvt_suffix(final_byte) {
            if let Some(code) = read_tilde_key(params.get_or(0, 0), flags) {
                return Some(Event::KeyPress(Key::of(code, modifiers)));
            }
        }
    }
    None
}

} // verus!
