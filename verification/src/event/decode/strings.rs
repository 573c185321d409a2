//! String sequences: OSC, DCS, SOS, PM and APC.
//!
//! A string sequence runs from its introducer to the first string terminator:
//! `ESC \` or the C1 byte `0x9c`, and for OSC also BEL.

use crate::bytes::{
    append, copy_range, field_value, fields_view, find_byte, index_of, read_number, split,
    split_fields, ESC,
};
use crate::color::Color;
use crate::event::decode::keys::intro_len;
use crate::event::decode::result::{optional_view, ParseResult, Parsed};
use crate::event::decode::text::{
    color_component, hex_bytes, lossy_text, optional_bytes, read_color_component, read_hex_bytes,
    text_of,
};
use crate::event::{options_view, ClipboardSelection, Event, EventView};
use vstd::prelude::*;
use vstd::slice::*;

verus! {

/// The string sequences, by introducer.
#[derive(Debug, Clone, Copy, PartialEq, Eq, Structural)]
pub enum StringKind {
    /// Operating System Command.
    Osc,
    /// Device Control String.
    Dcs,
    /// Start of String.
    Sos,
    /// Privacy Message.
    Pm,
    /// Application Program Command.
    Apc,
}

/// The length of the string terminator at `s[i]`, or zero where there is none.
pub open spec fn terminator_at(s: Seq<u8>, i: int, bel: bool) -> int {
    if s[i] == 0x9c || (bel && s[i] == 0x07) {
        1
    } else if s[i] == ESC && i + 1 < s.len() && s[i + 1] == 0x5c {
        2
    } else {
        0
    }
}

/// Where the first string terminator at or after `i` begins, or `s.len()`.
pub open spec fn body_end(s: Seq<u8>, i: int, bel: bool) -> int
    decreases s.len() - i,
{
    if i >= s.len() {
        s.len() as int
    } else if terminator_at(s, i, bel) > 0 {
        i
    } else {
        body_end(s, i + 1, bel)
    }
}

/// `s` up to the first `sep`.
pub open spec fn before(s: Seq<u8>, sep: u8) -> Seq<u8> {
    s.subrange(0, index_of(s, sep))
}

/// `s` after the first `sep`; empty where there is none.
pub open spec fn after(s: Seq<u8>, sep: u8) -> Seq<u8> {
    if index_of(s, sep) < s.len() {
        s.subrange(index_of(s, sep) + 1, s.len() as int)
    } else {
        Seq::empty()
    }
}

/// Whether `sep` occurs in `s`.
pub open spec fn occurs(s: Seq<u8>, sep: u8) -> bool {
    index_of(s, sep) < s.len()
}

/// The color of `rgb:r/g/b`, each component of one to four hexadecimal digits.
pub open spec fn color_spec(s: Seq<u8>) -> Option<Color> {
    if s.len() >= 4 && s[0] == 0x72 && s[1] == 0x67 && s[2] == 0x62 && s[3] == 0x3a {
        let parts = split(s.subrange(4, s.len() as int), 0x2f);
        if parts.len() == 3 && color_component(parts[0]) is Some && color_component(parts[1]) is Some
            && color_component(parts[2]) is Some {
            Some(
                Color::Rgb(
                    color_component(parts[0])->0,
                    color_component(parts[1])->0,
                    color_component(parts[2])->0,
                ),
            )
        } else {
            None
        }
    } else {
        None
    }
}

/// The clipboard selection of a selection character.
pub open spec fn selection_of(b: u8) -> ClipboardSelection {
    if b == 0x63 {
        ClipboardSelection::System
    } else if b == 0x70 {
        ClipboardSelection::Primary
    } else {
        ClipboardSelection::Other(b as char)
    }
}

/// The reply that an OSC payload is, if it is one.
pub open spec fn osc_reply(p: Seq<u8>) -> Option<EventView> {
    let n = field_value(before(p, 0x3b));
    let rest = after(p, 0x3b);
    if n == Some(10u32) && color_spec(rest) is Some {
        Some(EventView::ForegroundColor(color_spec(rest)->0))
    } else if n == Some(11u32) && color_spec(rest) is Some {
        Some(EventView::BackgroundColor(color_spec(rest)->0))
    } else if n == Some(12u32) && color_spec(rest) is Some {
        Some(EventView::CursorColor(color_spec(rest)->0))
    } else if n == Some(4u32) {
        let index = field_value(before(rest, 0x3b));
        let color = color_spec(after(rest, 0x3b));
        if index is Some && index->0 <= 255 && color is Some {
            Some(EventView::PaletteColor { index: index->0 as u8, color: color->0 })
        } else {
            None
        }
    } else if n == Some(52u32) && occurs(rest, 0x3b) && before(rest, 0x3b).len() > 0 {
        Some(
            EventView::Clipboard {
                selection: selection_of(rest[0]),
                content: lossy_text(after(rest, 0x3b)),
            },
        )
    } else {
        None
    }
}

/// One XTGETTCAP entry, `name` or `name=value` in hexadecimal.
pub open spec fn termcap_entry(e: Seq<u8>) -> Option<Seq<u8>> {
    let name = hex_bytes(before(e, 0x3d));
    if name is None || name->0.len() == 0 {
        None
    } else if !occurs(e, 0x3d) {
        name
    } else {
        match hex_bytes(after(e, 0x3d)) {
            Some(value) => Some(name->0 + seq![0x3du8] + value),
            None => None,
        }
    }
}

/// The entries that decode, joined by `;`.
pub open spec fn termcap_entries(entries: Seq<Seq<u8>>) -> Seq<u8>
    decreases entries.len(),
{
    if entries.len() == 0 {
        Seq::empty()
    } else {
        let front = termcap_entries(entries.drop_last());
        match termcap_entry(entries.last()) {
            Some(e) => if front.len() == 0 {
                e
            } else {
                front + seq![0x3bu8] + e
            },
            None => front,
        }
    }
}

/// Whether `p` begins with `a b c`.
pub open spec fn begins(p: Seq<u8>, a: u8, b: u8, c: u8) -> bool {
    p.len() >= 3 && p[0] == a && p[1] == b && p[2] == c
}

/// `s` from index `i` on.
pub open spec fn from(s: Seq<u8>, i: int) -> Seq<u8> {
    s.subrange(i, s.len() as int)
}

/// The reply that a DCS payload is, if it is one.
pub open spec fn dcs_reply(p: Seq<u8>) -> Option<EventView> {
    if begins(p, 0x31, 0x2b, 0x72) || begins(p, 0x30, 0x2b, 0x72) {
        Some(
            EventView::Termcap {
                recognized: p[0] == 0x31,
                payload: lossy_text(termcap_entries(split(from(p, 3), 0x3b))),
            },
        )
    } else if begins(p, 0x31, 0x24, 0x72) || begins(p, 0x30, 0x24, 0x72) {
        Some(EventView::Termcap { recognized: p[0] == 0x31, payload: lossy_text(p) })
    } else if p.len() >= 2 && p[0] == 0x3e && p[1] == 0x7c {
        Some(EventView::TerminalName(lossy_text(from(p, 2))))
    } else if p.len() >= 2 && p[0] == 0x21 && p[1] == 0x7c && hex_bytes(from(p, 2)) is Some {
        Some(EventView::TertiaryDeviceAttributes(lossy_text(hex_bytes(from(p, 2))->0)))
    } else {
        None
    }
}

/// The `key=value` fields among `fields`.
pub open spec fn graphics_options(fields: Seq<Seq<u8>>) -> Seq<(Seq<char>, Seq<char>)>
    decreases fields.len(),
{
    if fields.len() == 0 {
        Seq::empty()
    } else {
        let front = graphics_options(fields.drop_last());
        let f = fields.last();
        if occurs(f, 0x3d) {
            front.push((lossy_text(before(f, 0x3d)), lossy_text(after(f, 0x3d))))
        } else {
            front
        }
    }
}

/// The Kitty graphics response that an APC payload is, if it is one.
pub open spec fn apc_reply(p: Seq<u8>) -> Option<EventView> {
    if p.len() > 0 && p[0] == 0x47 {
        let body = from(p, 1);
        Some(
            EventView::KittyGraphics {
                options: graphics_options(split(before(body, 0x3b), 0x2c)),
                payload: after(body, 0x3b),
            },
        )
    } else {
        None
    }
}

/// The event of a string sequence with payload `p`.
pub open spec fn string_event(kind: StringKind, p: Seq<u8>) -> EventView {
    match kind {
        StringKind::Osc => match osc_reply(p) {
            Some(e) => e,
            None => EventView::UnknownOsc(p),
        },
        StringKind::Dcs => match dcs_reply(p) {
            Some(e) => e,
            None => EventView::UnknownDcs(p),
        },
        StringKind::Sos => EventView::UnknownSos(p),
        StringKind::Pm => EventView::UnknownPm(p),
        StringKind::Apc => match apc_reply(p) {
            Some(e) => e,
            None => EventView::UnknownApc(p),
        },
    }
}

/// The outcome of parsing a string sequence at the front of `s`.
pub open spec fn string_parsed(kind: StringKind, s: Seq<u8>) -> Parsed {
    let start = intro_len(s[0]) as int;
    let bel = kind is Osc;
    let end = body_end(s, start, bel);
    if end >= s.len() {
        Parsed::Incomplete
    } else {
        Parsed::Event(
            string_event(kind, s.subrange(start, end)),
            end + terminator_at(s, end, bel),
        )
    }
}

/// The search for a terminator stays in the sequence.
pub proof fn lemma_body_end(s: Seq<u8>, i: int, bel: bool)
    requires
        0 <= i,
    ensures
        i <= s.len() ==> i <= body_end(s, i, bel) <= s.len(),
        i > s.len() ==> body_end(s, i, bel) == s.len(),
        body_end(s, i, bel) < s.len() ==> terminator_at(s, body_end(s, i, bel), bel) > 0,
        body_end(s, i, bel) < s.len() ==> body_end(s, i, bel) + terminator_at(
            s,
            body_end(s, i, bel),
            bel,
        ) <= s.len(),
    decreases s.len() - i,
{
    if i < s.len() && terminator_at(s, i, bel) <= 0 {
        lemma_body_end(s, i + 1, bel);
    }
}

/// A terminator that is found stays the first one when more bytes follow.
pub proof fn lemma_body_end_extend(s: Seq<u8>, t: Seq<u8>, i: int, bel: bool)
    requires
        0 <= i <= s.len(),
        body_end(s, i, bel) < s.len(),
    ensures
        body_end(s + t, i, bel) == body_end(s, i, bel),
        terminator_at(s + t, body_end(s, i, bel), bel) == terminator_at(
            s,
            body_end(s, i, bel),
            bel,
        ),
    decreases s.len() - i,
{
    let st = s + t;
    assert(i < s.len());
    assert(st[i] == s[i]);
    if i + 1 < s.len() {
        assert(st[i + 1] == s[i + 1]);
    }
    if terminator_at(s, i, bel) <= 0 {
        lemma_body_end(s, i + 1, bel);
        assert(i + 1 < s.len());
        lemma_body_end_extend(s, t, i + 1, bel);
    }
}

/// A string sequence that is complete is parsed the same way when more bytes
/// follow.
pub proof fn lemma_string_extend(kind: StringKind, s: Seq<u8>, t: Seq<u8>)
    requires
        s.len() > 0,
        !(string_parsed(kind, s) is Incomplete),
    ensures
        string_parsed(kind, s + t) == string_parsed(kind, s),
{
    let start = intro_len(s[0]) as int;
    let bel = kind is Osc;
    assert((s + t)[0] == s[0]);
    lemma_body_end(s, start, bel);
    lemma_body_end_extend(s, t, start, bel);
    let end = body_end(s, start, bel);
    assert((s + t).subrange(start, end) =~= s.subrange(start, end));
}

/// Compute [`before`].
fn take_before(s: &[u8], sep: u8) -> (r: Vec<u8>)
    ensures
        r@ == before(s@, sep),
{
    let i: usize = find_byte(s, sep);
    copy_range(s, 0, i)
}

/// Compute [`after`].
fn take_after(s: &[u8], sep: u8) -> (r: Vec<u8>)
    ensures
        r@ == after(s@, sep),
{
    let i: usize = find_byte(s, sep);
    if i < s.len() {
        copy_range(s, i + 1, s.len())
    } else {
        Vec::new()
    }
}

/// Read a color specification.
fn read_color_spec(s: &[u8]) -> (r: Option<Color>)
    ensures
        r == color_spec(s@),
{
    if s.len() < 4 || s[0] != 0x72 || s[1] != 0x67 || s[2] != 0x62 || s[3] != 0x3a {
        return None;
    }
    let parts = split_fields(slice_subrange(s, 4, s.len()), 0x2f);
    assert(fields_view(parts@).len() == parts@.len());
    if parts.len() != 3 {
        return None;
    }
    assert(fields_view(parts@)[0] == parts@[0]@);
    assert(fields_view(parts@)[1] == parts@[1]@);
    assert(fields_view(parts@)[2] == parts@[2]@);
    match (
        read_color_component(parts[0].as_slice()),
        read_color_component(parts[1].as_slice()),
        read_color_component(parts[2].as_slice()),
    ) {
        (Some(r), Some(g), Some(b)) => Some(Color::Rgb(r, g, b)),
        _ => None,
    }
}

/// Recognize an OSC reply.
fn recognize_osc(p: &[u8]) -> (r: Option<Event>)
    ensures
        optional_view(r) == osc_reply(p@),
{
    let number = take_before(p, 0x3b);
    let rest = take_after(p, 0x3b);
    match read_number(number.as_slice()) {
        Some(10) => match read_color_spec(rest.as_slice()) {
            Some(c) => Some(Event::ForegroundColor(c)),
            None => None,
        },
        Some(11) => match read_color_spec(rest.as_slice()) {
            Some(c) => Some(Event::BackgroundColor(c)),
            None => None,
        },
        Some(12) => match read_color_spec(rest.as_slice()) {
            Some(c) => Some(Event::CursorColor(c)),
            None => None,
        },
        Some(4) => {
            let index = read_number(take_before(rest.as_slice(), 0x3b).as_slice());
            let color = read_color_spec(take_after(rest.as_slice(), 0x3b).as_slice());
            match (index, color) {
                (Some(i), Some(c)) => if i <= 255 {
                    Some(Event::PaletteColor { index: i as u8, color: c })
                } else {
                    None
                },
                _ => None,
            }
        },
        Some(52) => {
            let i: usize = find_byte(rest.as_slice(), 0x3b);
            if i == 0 || i >= rest.len() {
                return None;
            }
            let b: u8 = rest[0];
            let selection = if b == 0x63 {
                ClipboardSelection::System
            } else if b == 0x70 {
                ClipboardSelection::Primary
            } else {
                ClipboardSelection::Other(b as char)
            };
            let content = text_of(take_after(rest.as_slice(), 0x3b).as_slice());
            Some(Event::Clipboard { selection, content })
        },
        _ => None,
    }
}

/// Decode one XTGETTCAP entry.
fn read_termcap_entry(e: &[u8]) -> (r: Option<Vec<u8>>)
    ensures
        optional_bytes(r) == termcap_entry(e@),
{
    let mut text = match read_hex_bytes(take_before(e, 0x3d).as_slice()) {
        Some(name) => name,
        None => return None,
    };
    if text.len() == 0 {
        return None;
    }
    if find_byte(e, 0x3d) >= e.len() {
        return Some(text);
    }
    match read_hex_bytes(take_after(e, 0x3d).as_slice()) {
        Some(value) => {
            let ghost name = text@;
            text.push(0x3d);
            append(&mut text, value.as_slice());
            assert(text@ =~= name + seq![0x3du8] + value@);
            Some(text)
        },
        None => None,
    }
}

/// Decode the XTGETTCAP entries of a reply.
fn read_termcap_entries(p: &[u8]) -> (r: Vec<u8>)
    ensures
        r@ == termcap_entries(split(p@, 0x3b)),
{
    let fields = split_fields(p, 0x3b);
    let ghost entries = fields_view(fields@);
    let mut text: Vec<u8> = Vec::new();
    let mut i: usize = 0;
    while i < fields.len()
        invariant
            0 <= i <= fields@.len(),
            entries == fields_view(fields@),
            text@ == termcap_entries(entries.subrange(0, i as int)),
        decreases fields@.len() - i,
    {
        proof {
            let next = entries.subrange(0, i + 1);
            assert(next.drop_last() =~= entries.subrange(0, i as int));
            assert(next.last() == fields@[i as int]@);
        }
        if let Some(entry) = read_termcap_entry(fields[i].as_slice()) {
            let ghost front = text@;
            if text.len() > 0 {
                text.push(0x3b);
            }
            append(&mut text, entry.as_slice());
            proof {
                if front.len() == 0 {
                    assert(text@ =~= entry@);
                } else {
                    assert(text@ =~= front + seq![0x3bu8] + entry@);
                }
            }
        }
        i += 1;
    }
    assert(entries.subrange(0, entries.len() as int) =~= entries);
    text
}

/// Recognize a DCS reply.
fn recognize_dcs(p: &[u8]) -> (r: Option<Event>)
    ensures
        optional_view(r) == dcs_reply(p@),
{
    if p.len() >= 3 && (p[0] == 0x31 || p[0] == 0x30) && p[1] == 0x2b && p[2] == 0x72 {
        let recognized = p[0] == 0x31;
        let entries = read_termcap_entries(slice_subrange(p, 3, p.len()));
        return Some(Event::Termcap { recognized, payload: text_of(entries.as_slice()) });
    }
    if p.len() >= 3 && (p[0] == 0x31 || p[0] == 0x30) && p[1] == 0x24 && p[2] == 0x72 {
        let recognized = p[0] == 0x31;
        return Some(Event::Termcap { recognized, payload: text_of(p) });
    }
    if p.len() >= 2 && p[0] == 0x3e && p[1] == 0x7c {
        return Some(Event::TerminalName(text_of(slice_subrange(p, 2, p.len()))));
    }
    if p.len() >= 2 && p[0] == 0x21 && p[1] == 0x7c {
        if let Some(id) = read_hex_bytes(slice_subrange(p, 2, p.len())) {
            return Some(Event::TertiaryDeviceAttributes(text_of(id.as_slice())));
        }
    }
    None
}

/// Read the `key=value` fields of a Kitty graphics response.
fn read_graphics_options(header: &[u8]) -> (r: Vec<(String, String)>)
    ensures
        options_view(r@) == graphics_options(split(header@, 0x2c)),
{
    let fields = split_fields(header, 0x2c);
    let ghost all = fields_view(fields@);
    let mut options: Vec<(String, String)> = Vec::new();
    let mut i: usize = 0;
    while i < fields.len()
        invariant
            0 <= i <= fields@.len(),
            all == fields_view(fields@),
            options_view(options@) == graphics_options(all.subrange(0, i as int)),
        decreases fields@.len() - i,
    {
        proof {
            let next = all.subrange(0, i + 1);
            assert(next.drop_last() =~= all.subrange(0, i as int));
            assert(next.last() == fields@[i as int]@);
        }
        let field = fields[i].as_slice();
        if find_byte(field, 0x3d) < field.len() {
            let key = text_of(take_before(field, 0x3d).as_slice());
            let value = text_of(take_after(field, 0x3d).as_slice());
            let ghost front = options_view(options@);
            let ghost pair = (key@, value@);
            options.push((key, value));
            assert(options_view(options@) =~= front.push(pair));
        }
        i += 1;
    }
    assert(all.subrange(0, all.len() as int) =~= all);
    options
}

/// Recognize a Kitty graphics response.
fn recognize_apc(p: &[u8]) -> (r: Option<Event>)
    ensures
        optional_view(r) == apc_reply(p@),
{
    if p.len() == 0 || p[0] != 0x47 {
        return None;
    }
    let body = slice_subrange(p, 1, p.len());
    let header = take_before(body, 0x3b);
    let options = read_graphics_options(header.as_slice());
    let payload = take_after(body, 0x3b);
    Some(Event::KittyGraphics { options, payload })
}

/// The event of a string sequence.
fn make_string_event(kind: StringKind, p: &[u8]) -> (r: Event)
    ensures
        r@ == string_event(kind, p@),
{
    match kind {
        StringKind::Osc => match recognize_osc(p) {
            Some(e) => e,
            None => Event::UnknownOsc(slice_to_vec(p)),
        },
        StringKind::Dcs => match recognize_dcs(p) {
            Some(e) => e,
            None => Event::UnknownDcs(slice_to_vec(p)),
        },
        StringKind::Sos => Event::UnknownSos(slice_to_vec(p)),
        StringKind::Pm => Event::UnknownPm(slice_to_vec(p)),
        StringKind::Apc => match recognize_apc(p) {
            Some(e) => e,
            None => Event::UnknownApc(slice_to_vec(p)),
        },
    }
}

/// Parse a string sequence at the front of `buf`.
pub fn parse_string(kind: StringKind, buf: &[u8]) -> (r: ParseResult)
    requires
        buf@.len() >= intro_len(buf@[0]),
        buf@.len() > 0,
    ensures
        r@ == string_parsed(kind, buf@),
{
    let start: usize = intro_len(buf[0]);
    let bel = matches!(kind, StringKind::Osc);
    let mut i: usize = start;
    while i < buf.len()
        invariant
            start <= i <= buf@.len(),
            buf@.len() > 0,
            start == intro_len(buf@[0]),
            bel == (kind is Osc),
            body_end(buf@, start as int, bel) == body_end(buf@, i as int, bel),
        decreases buf@.len() - i,
    {
        let b: u8 = buf[i];
        if b == 0x9c || (bel && b == 0x07) {
            return ParseResult::Event(
                make_string_event(kind, slice_subrange(buf, start, i)),
                i + 1,
            );
        }
        if b == ESC && i + 1 < buf.len() && buf[i + 1] == 0x5c {
            return ParseResult::Event(
                make_string_event(kind, slice_subrange(buf, start, i)),
                i + 2,
            );
        }
        i += 1;
    }
    ParseResult::Incomplete
}

} // verus!
