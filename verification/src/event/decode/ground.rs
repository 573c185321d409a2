//! The front of the input: one-byte keys, introducers, and `ESC` prefixes.

use crate::bytes::ESC;
use crate::event::decode::csi::{
    csi_parsed, lemma_csi_extend, lemma_csi_within, parse_csi, Reading,
};
use crate::event::decode::flags::DecoderFlags;
use crate::event::decode::keys::intro_len;
use crate::event::decode::result::{within, ParseResult, Parsed};
use crate::event::decode::ss3::{lemma_ss3_extend, lemma_ss3_within, parse_ss3, ss3_parsed};
use crate::event::decode::strings::{
    lemma_body_end, lemma_string_extend, parse_string, string_parsed, StringKind,
};
use crate::event::decode::utf8::{lemma_utf8_char_extend, parse_utf8, utf8_parsed};
use crate::event::key::{ascii_lower, key_of, to_ascii_lower, Key, KeyCode, KeyModifiers, KeyView};
use crate::event::{key_of_event, Event, EventView};
use vstd::prelude::*;
use vstd::slice::*;

verus! {

/// Control and Alt.
#[verifier::allow_in_spec]
pub fn ctrl_alt() -> KeyModifiers
    returns
        KeyModifiers::ctrl().union(KeyModifiers::alt()),
{
    KeyModifiers::ctrl().union(KeyModifiers::alt())
}

/// The key of an 8-bit C1 byte that introduces nothing: Ctrl+Alt and the byte's
/// 7-bit letter.
pub open spec fn c1_key(b: u8) -> KeyView {
    key_of(KeyCode::Char(ascii_lower((b - 0x40) as u8)), ctrl_alt())
}

/// Compute [`c1_key`].
pub fn make_c1_key(b: u8) -> (r: Key)
    requires
        0x80 <= b <= 0x9f,
    ensures
        r@ == c1_key(b),
{
    Key::of(KeyCode::Char(to_ascii_lower(b - 0x40)), ctrl_alt())
}

/// Whether `b` is `ESC`'s partner in a 7-bit introducer: SS3, DCS, SOS, CSI, OSC,
/// PM or APC.
#[verifier::allow_in_spec]
pub fn introduces(b: u8) -> bool
    returns
        (b == 0x4f || b == 0x50 || b == 0x58 || b == 0x5b || b == 0x5d || b == 0x5e || b == 0x5f),
{
    b == 0x4f || b == 0x50 || b == 0x58 || b == 0x5b || b == 0x5d || b == 0x5e || b == 0x5f
}

/// The code of a one-byte key below `0x80`, other than `ESC`.
pub open spec fn byte_code(b: u8, flags: DecoderFlags) -> KeyCode {
    if b == 0x00 {
        if flags.ctrl_at {
            KeyCode::Char('@')
        } else {
            KeyCode::Space
        }
    } else if b == 0x09 {
        if flags.ctrl_i {
            KeyCode::Char('i')
        } else {
            KeyCode::Tab
        }
    } else if b == 0x0a {
        KeyCode::Enter
    } else if b == 0x0d {
        if flags.ctrl_m {
            KeyCode::Char('m')
        } else {
            KeyCode::Enter
        }
    } else if b <= 0x1a {
        KeyCode::Char((b + 0x60) as char)
    } else if b <= 0x1f {
        KeyCode::Char((b + 0x40) as char)
    } else if b == 0x20 {
        KeyCode::Space
    } else if b == 0x7f {
        if flags.backspace_is_delete {
            KeyCode::Delete
        } else {
            KeyCode::Backspace
        }
    } else {
        KeyCode::Char(b as char)
    }
}

/// Whether a one-byte key below `0x80` is read as held with Control.
pub open spec fn byte_is_ctrl(b: u8, flags: DecoderFlags) -> bool {
    b < 0x20 && b != 0x0a && (b == 0x09 ==> flags.ctrl_i) && (b == 0x0d ==> flags.ctrl_m)
}

/// The one-byte key below `0x80`, other than `ESC`.
pub open spec fn byte_key(b: u8, flags: DecoderFlags) -> KeyView {
    key_of(
        byte_code(b, flags),
        if byte_is_ctrl(b, flags) {
            KeyModifiers::ctrl()
        } else {
            KeyModifiers::empty()
        },
    )
}

/// Compute [`byte_key`].
fn make_byte_key(b: u8, flags: DecoderFlags) -> (r: Key)
    requires
        b < 0x80,
        b != ESC,
    ensures
        r@ == byte_key(b, flags),
{
    let none = KeyModifiers::empty();
    let ctrl = KeyModifiers::ctrl();
    match b {
        0x00 => if flags.ctrl_at {
            Key::of(KeyCode::Char('@'), ctrl)
        } else {
            Key::of(KeyCode::Space, ctrl)
        },
        0x09 => if flags.ctrl_i {
            Key::of(KeyCode::Char('i'), ctrl)
        } else {
            Key::of(KeyCode::Tab, none)
        },
        0x0a => Key::of(KeyCode::Enter, none),
        0x0d => if flags.ctrl_m {
            Key::of(KeyCode::Char('m'), ctrl)
        } else {
            Key::of(KeyCode::Enter, none)
        },
        0x01..=0x1a => Key::of(KeyCode::Char((b + 0x60) as char), ctrl),
        0x1b..=0x1f => Key::of(KeyCode::Char((b + 0x40) as char), ctrl),
        0x20 => Key::of(KeyCode::Space, none),
        0x7f => if flags.backspace_is_delete {
            Key::of(KeyCode::Delete, none)
        } else {
            Key::of(KeyCode::Backspace, none)
        },
        _ => Key::of(KeyCode::Char(b as char), none),
    }
}

/// The outcome of a sequence whose 7-bit introducer is `ESC c`, in its 7-bit or
/// 8-bit form at the front of `s`.
pub open spec fn introduced(cfg: Reading, s: Seq<u8>, c: u8) -> Parsed {
    if c == 0x5b {
        csi_parsed(cfg, s)
    } else if c == 0x4f {
        ss3_parsed(s)
    } else {
        string_parsed(string_kind(c), s)
    }
}

/// The string sequence whose 7-bit introducer is `ESC c`.
pub open spec fn string_kind(c: u8) -> StringKind {
    if c == 0x50 {
        StringKind::Dcs
    } else if c == 0x58 {
        StringKind::Sos
    } else if c == 0x5d {
        StringKind::Osc
    } else if c == 0x5e {
        StringKind::Pm
    } else {
        StringKind::Apc
    }
}

/// A key with Alt added. What it typed is no longer text.
pub open spec fn with_alt(k: KeyView) -> KeyView {
    KeyView { modifiers: k.modifiers.union(KeyModifiers::alt()), text: None, ..k }
}

/// Whether an `ESC` in front of `e` adds Alt to it: a key that has none yet.
pub open spec fn takes_alt(e: EventView) -> bool {
    key_of_event(e) is Some && !key_of_event(e)->0.modifiers.alt
}

/// The event of a key with Alt added.
pub open spec fn alt_event(e: EventView) -> EventView {
    match e {
        EventView::KeyPress(k) => EventView::KeyPress(with_alt(k)),
        EventView::KeyRepeat(k) => EventView::KeyRepeat(with_alt(k)),
        EventView::KeyRelease(k) => EventView::KeyRelease(with_alt(k)),
        _ => e,
    }
}

/// A press of the Escape key.
pub open spec fn escape_press(modifiers: KeyModifiers) -> EventView {
    EventView::KeyPress(key_of(KeyCode::Escape, modifiers))
}

/// The outcome of an `ESC` at the front of `s`, given the outcome of what follows
/// it. The `ESC` adds Alt to a key that has none; otherwise it is the Escape key
/// by itself. Once the deadline has passed, two `ESC` alone are Alt+Escape.
pub open spec fn prefixed(cfg: Reading, s: Seq<u8>, inner: Parsed) -> Parsed {
    match inner {
        Parsed::Incomplete => if cfg.expired && s.len() == 2 && s[1] == ESC {
            Parsed::Event(escape_press(KeyModifiers::alt()), 2)
        } else {
            Parsed::Incomplete
        },
        Parsed::Event(e, n) => if takes_alt(e) {
            Parsed::Event(alt_event(e), n + 1)
        } else {
            Parsed::Event(escape_press(KeyModifiers::empty()), 1)
        },
        Parsed::Packet(Some(e), n, state) => if takes_alt(e) {
            Parsed::Packet(Some(alt_event(e)), n + 1, state)
        } else {
            Parsed::Event(escape_press(KeyModifiers::empty()), 1)
        },
        _ => Parsed::Event(escape_press(KeyModifiers::empty()), 1),
    }
}

/// The outcome of parsing the front of `s`.
#[verifier::opaque]
pub open spec fn parsed(cfg: Reading, s: Seq<u8>) -> Parsed
    decreases s.len(),
{
    if s.len() == 0 {
        Parsed::Incomplete
    } else if s[0] == ESC {
        if s.len() == 1 {
            Parsed::Incomplete
        } else if introduces(s[1]) {
            introduced(cfg, s, s[1])
        } else {
            prefixed(cfg, s, parsed(cfg, s.subrange(1, s.len() as int)))
        }
    } else if s[0] < 0x80 {
        Parsed::Event(EventView::KeyPress(byte_key(s[0], cfg.flags)), 1)
    } else if s[0] >= 0xa0 {
        utf8_parsed(s)
    } else if introduces((s[0] - 0x40) as u8) {
        introduced(cfg, s, (s[0] - 0x40) as u8)
    } else {
        Parsed::Event(EventView::KeyPress(c1_key(s[0])), 1)
    }
}

/// Parse a sequence whose 7-bit introducer is `ESC c`.
fn parse_introduced(cfg: &Reading, buf: &[u8], c: u8) -> (r: ParseResult)
    requires
        buf@.len() > 0,
        buf@.len() >= intro_len(buf@[0]),
    ensures
        r@ == introduced(*cfg, buf@, c),
{
    match c {
        0x5b => parse_csi(cfg, buf),
        0x4f => parse_ss3(buf),
        0x50 => parse_string(StringKind::Dcs, buf),
        0x58 => parse_string(StringKind::Sos, buf),
        0x5d => parse_string(StringKind::Osc, buf),
        0x5e => parse_string(StringKind::Pm, buf),
        _ => parse_string(StringKind::Apc, buf),
    }
}

/// Add Alt to a key.
fn add_alt(key: Key) -> (r: Key)
    ensures
        r@ == with_alt(key@),
{
    let mut k = key;
    k.modifiers = k.modifiers.union(KeyModifiers::alt());
    k.text = None;
    k
}

/// Add Alt to a key event that takes it; nothing for any other event.
fn promote(event: Event) -> (r: Option<Event>)
    ensures
        r is Some == takes_alt(event@),
        r is Some ==> r->0@ == alt_event(event@),
{
    match event {
        Event::KeyPress(k) => if k.modifiers.alt {
            None
        } else {
            Some(Event::KeyPress(add_alt(k)))
        },
        Event::KeyRepeat(k) => if k.modifiers.alt {
            None
        } else {
            Some(Event::KeyRepeat(add_alt(k)))
        },
        Event::KeyRelease(k) => if k.modifiers.alt {
            None
        } else {
            Some(Event::KeyRelease(add_alt(k)))
        },
        _ => None,
    }
}

/// A press of the Escape key.
fn make_escape(modifiers: KeyModifiers) -> (r: Event)
    ensures
        r@ == escape_press(modifiers),
{
    Event::KeyPress(Key::of(KeyCode::Escape, modifiers))
}

/// Parse an `ESC` that introduces nothing, with something after it.
fn parse_prefix(cfg: &Reading, buf: &[u8]) -> (r: ParseResult)
    requires
        buf@.len() >= 2,
        buf@[0] == ESC,
        !introduces(buf@[1]),
    ensures
        r@ == parsed(*cfg, buf@),
    decreases buf@.len(), 0int,
{
    let rest = slice_subrange(buf, 1, buf.len());
    proof {
        reveal(parsed);
        lemma_parsed_within(*cfg, rest@);
    }
    match try_parse(cfg, rest) {
        ParseResult::Incomplete => {
            if cfg.expired && buf.len() == 2 && buf[1] == ESC {
                ParseResult::Event(make_escape(KeyModifiers::alt()), 2)
            } else {
                ParseResult::Incomplete
            }
        },
        ParseResult::Event(e, n) => match promote(e) {
            Some(e) => ParseResult::Event(e, n + 1),
            None => ParseResult::Event(make_escape(KeyModifiers::empty()), 1),
        },
        ParseResult::Packet(Some(e), n, state) => match promote(e) {
            Some(e) => ParseResult::Packet(Some(e), n + 1, state),
            None => ParseResult::Event(make_escape(KeyModifiers::empty()), 1),
        },
        _ => ParseResult::Event(make_escape(KeyModifiers::empty()), 1),
    }
}

/// Parse the front of `buf`.
pub fn try_parse(cfg: &Reading, buf: &[u8]) -> (r: ParseResult)
    ensures
        r@ == parsed(*cfg, buf@),
        within(r@, buf@.len()),
    decreases buf@.len(), 1int,
{
    proof {
        reveal(parsed);
        lemma_parsed_within(*cfg, buf@);
    }
    if buf.len() == 0 {
        return ParseResult::Incomplete;
    }
    let b: u8 = buf[0];
    if b == ESC {
        if buf.len() == 1 {
            return ParseResult::Incomplete;
        }
        if introduces(buf[1]) {
            return parse_introduced(cfg, buf, buf[1]);
        }
        return parse_prefix(cfg, buf);
    }
    if b < 0x80 {
        return ParseResult::Event(Event::KeyPress(make_byte_key(b, cfg.flags)), 1);
    }
    if b >= 0xa0 {
        return parse_utf8(buf);
    }
    if introduces(b - 0x40) {
        return parse_introduced(cfg, buf, b - 0x40);
    }
    ParseResult::Event(Event::KeyPress(make_c1_key(b)), 1)
}

/// The outcome of a string sequence stays within the input.
proof fn lemma_string_within(kind: StringKind, s: Seq<u8>)
    requires
        s.len() > 0,
    ensures
        within(string_parsed(kind, s), s.len()),
{
    lemma_body_end(s, intro_len(s[0]) as int, kind is Osc);
}

/// Every outcome stays within the input and, unless it asks for more, takes at
/// least one byte.
pub proof fn lemma_parsed_within(cfg: Reading, s: Seq<u8>)
    ensures
        within(parsed(cfg, s), s.len()),
    decreases s.len(),
{
    reveal(parsed);
    if s.len() > 0 {
        if s[0] == ESC {
            if s.len() >= 2 {
                if introduces(s[1]) {
                    lemma_csi_within(cfg, s);
                    lemma_ss3_within(s);
                    lemma_string_within(string_kind(s[1]), s);
                } else {
                    lemma_parsed_within(cfg, s.subrange(1, s.len() as int));
                }
            }
        } else if 0x80 <= s[0] && s[0] < 0xa0 {
            lemma_csi_within(cfg, s);
            lemma_ss3_within(s);
            lemma_string_within(string_kind((s[0] - 0x40) as u8), s);
        }
    }
}

/// Once the front of the input is decided, more input does not change the
/// decision. An expired deadline is the one exception: it decides early.
pub proof fn lemma_parsed_extend(cfg: Reading, s: Seq<u8>, t: Seq<u8>)
    requires
        !cfg.expired,
        !(parsed(cfg, s) is Incomplete),
    ensures
        parsed(cfg, s + t) == parsed(cfg, s),
    decreases s.len(),
{
    reveal(parsed);
    let st = s + t;
    assert(s.len() > 0);
    assert(st[0] == s[0]);
    if s[0] == ESC {
        assert(st[1] == s[1]);
        if introduces(s[1]) {
            lemma_introduced_extend(cfg, s, t, s[1]);
        } else {
            let rest = s.subrange(1, s.len() as int);
            lemma_parsed_extend(cfg, rest, t);
            assert(st.subrange(1, st.len() as int) =~= rest + t);
        }
    } else if s[0] >= 0xa0 {
        lemma_utf8_char_extend(s, t);
    } else if s[0] >= 0x80 && introduces((s[0] - 0x40) as u8) {
        lemma_introduced_extend(cfg, s, t, (s[0] - 0x40) as u8);
    }
}

proof fn lemma_introduced_extend(cfg: Reading, s: Seq<u8>, t: Seq<u8>, c: u8)
    requires
        s.len() > 0,
        s.len() >= intro_len(s[0]),
        !(introduced(cfg, s, c) is Incomplete),
    ensures
        introduced(cfg, s + t, c) == introduced(cfg, s, c),
{
    if c == 0x5b {
        lemma_csi_extend(cfg, s, t);
    } else if c == 0x4f {
        lemma_ss3_extend(s, t);
    } else {
        lemma_string_extend(string_kind(c), s, t);
    }
}

} // verus!
