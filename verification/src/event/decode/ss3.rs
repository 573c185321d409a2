//! SS3 sequences: `ESC O` or `0x8f`, an optional modifier number, and one byte.

use crate::bytes::{copy_range, field_value, first_from, is_digit, lemma_first_from,
    lemma_first_from_extend, read_number};
use crate::event::decode::keys::{
    cursor_key, intro_len, read_cursor_key, read_urxvt_arrow, urxvt_arrow, xterm_modifiers,
};
use crate::event::decode::result::{within, ParseResult, Parsed};
use crate::event::key::{key_of, Key, KeyCode, KeyModifiers};
use crate::event::{Event, EventView};
use vstd::prelude::*;
use vstd::slice::*;

verus! {

/// The key of an SS3 byte.
pub open spec fn ss3_key(b: u8) -> Option<KeyCode> {
    if cursor_key(b) is Some {
        cursor_key(b)
    } else if urxvt_arrow(b) is Some {
        urxvt_arrow(b)
    } else if b == 0x52 {
        Some(KeyCode::F(3))
    } else if 0x70 <= b <= 0x79 {
        Some(KeyCode::KpDigit((b - 0x70) as u8))
    } else if b == 0x49 {
        Some(KeyCode::Tab)
    } else if b == 0x4d {
        Some(KeyCode::KpEnter)
    } else if b == 0x58 {
        Some(KeyCode::KpEqual)
    } else if b == 0x6a {
        Some(KeyCode::KpMultiply)
    } else if b == 0x6b {
        Some(KeyCode::KpAdd)
    } else if b == 0x6c {
        Some(KeyCode::KpSeparator)
    } else if b == 0x6d {
        Some(KeyCode::KpSubtract)
    } else if b == 0x6e {
        Some(KeyCode::KpDecimal)
    } else if b == 0x6f {
        Some(KeyCode::KpDivide)
    } else {
        None
    }
}

fn read_ss3_key(b: u8) -> (r: Option<KeyCode>)
    ensures
        r == ss3_key(b),
{
    match b {
        0x52 => Some(KeyCode::F(3)),
        0x61..=0x64 => read_urxvt_arrow(b),
        0x70..=0x79 => Some(KeyCode::KpDigit(b - 0x70)),
        0x49 => Some(KeyCode::Tab),
        0x4d => Some(KeyCode::KpEnter),
        0x58 => Some(KeyCode::KpEqual),
        0x6a => Some(KeyCode::KpMultiply),
        0x6b => Some(KeyCode::KpAdd),
        0x6c => Some(KeyCode::KpSeparator),
        0x6d => Some(KeyCode::KpSubtract),
        0x6e => Some(KeyCode::KpDecimal),
        0x6f => Some(KeyCode::KpDivide),
        _ => read_cursor_key(b),
    }
}

/// The modifiers of an SS3 key: those of its modifier number, and Control for the
/// lower-case arrows of URxvt.
pub open spec fn ss3_modifiers(number: Seq<u8>, b: u8) -> KeyModifiers {
    let m = xterm_modifiers(
        match field_value(number) {
            Some(v) => v as u16,
            None => 1,
        },
    );
    if urxvt_arrow(b) is Some {
        m.union(KeyModifiers::ctrl())
    } else {
        m
    }
}

/// Matches what is not a digit.
pub open spec fn non_digit() -> spec_fn(u8) -> bool {
    |b: u8| !is_digit(b)
}

/// The outcome of parsing an SS3 sequence at the front of `s`. A byte that is not
/// printable ends the sequence without being part of it.
pub open spec fn ss3_parsed(s: Seq<u8>) -> Parsed {
    let start = intro_len(s[0]) as int;
    let i = first_from(s, start, non_digit());
    if i >= s.len() {
        Parsed::Incomplete
    } else if s[i] < 0x20 || s[i] > 0x7e {
        Parsed::Event(EventView::UnknownSs3(s.subrange(0, i)), i)
    } else {
        match ss3_key(s[i]) {
            Some(code) => Parsed::Event(
                EventView::KeyPress(key_of(code, ss3_modifiers(s.subrange(start, i), s[i]))),
                i + 1,
            ),
            None => Parsed::Event(EventView::UnknownSs3(s.subrange(0, i + 1)), i + 1),
        }
    }
}

/// Parse an SS3 sequence at the front of `buf`.
pub fn parse_ss3(buf: &[u8]) -> (r: ParseResult)
    requires
        buf@.len() > 0,
        buf@.len() >= intro_len(buf@[0]),
    ensures
        r@ == ss3_parsed(buf@),
{
    let start: usize = intro_len(buf[0]);
    let mut i: usize = start;
    while i < buf.len() && buf[i] >= 0x30 && buf[i] <= 0x39
        invariant
            start <= i <= buf@.len(),
            first_from(buf@, start as int, non_digit()) == first_from(
                buf@,
                i as int,
                non_digit(),
            ),
        decreases buf@.len() - i,
    {
        i += 1;
    }
    if i >= buf.len() {
        return ParseResult::Incomplete;
    }
    let b: u8 = buf[i];
    if b < 0x20 || b > 0x7e {
        return ParseResult::Event(Event::UnknownSs3(copy_range(buf, 0, i)), i);
    }
    match read_ss3_key(b) {
        Some(code) => {
            let v: u32 = match read_number(slice_subrange(buf, start, i)) {
                Some(v) => v,
                None => 1,
            };
            let v: u16 = #[verifier::truncate]
            (v as u16);
            let mut modifiers = xterm_modifiers(v);
            if read_urxvt_arrow(b).is_some() {
                modifiers = modifiers.union(KeyModifiers::ctrl());
            }
            ParseResult::Event(Event::KeyPress(Key::of(code, modifiers)), i + 1)
        },
        None => ParseResult::Event(Event::UnknownSs3(copy_range(buf, 0, i + 1)), i + 1),
    }
}

/// A complete SS3 sequence is parsed the same way when more bytes follow.
pub proof fn lemma_ss3_extend(s: Seq<u8>, t: Seq<u8>)
    requires
        s.len() > 0,
        s.len() >= intro_len(s[0]),
        !(ss3_parsed(s) is Incomplete),
    ensures
        ss3_parsed(s + t) == ss3_parsed(s),
{
    let start = intro_len(s[0]) as int;
    let i = first_from(s, start, non_digit());
    assert((s + t)[0] == s[0]);
    lemma_first_from(s, start, non_digit());
    lemma_first_from_extend(s, t, start, non_digit());
    assert((s + t)[i] == s[i]);
    assert((s + t).subrange(0, i) =~= s.subrange(0, i));
    assert((s + t).subrange(0, i + 1) =~= s.subrange(0, i + 1));
    assert((s + t).subrange(start, i) =~= s.subrange(start, i));
}

/// The outcome stays within the input.
pub proof fn lemma_ss3_within(s: Seq<u8>)
    requires
        s.len() > 0,
        s.len() >= intro_len(s[0]),
    ensures
        within(ss3_parsed(s), s.len()),
{
    lemma_first_from(s, intro_len(s[0]) as int, non_digit());
}

} // verus!
