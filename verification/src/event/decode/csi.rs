//! CSI (Control Sequence Introducer) sequences.
//!
//! A CSI sequence starts with `ESC [` or the C1 byte `0x9b`, followed by optional
//! parameter bytes (`0x30..=0x3f`), optional intermediate bytes
//! (`0x20..=0x2f`), and one final byte (`0x40..=0x7e`). The modifier suffix `$` of
//! URxvt keys, which carry one parameter, ends a sequence too; after a private prefix or
//! a second parameter `$` is an intermediate, as in a mode report.
//!
//! ```text
//! ESC [ / 0x9B ──▶ params + intermediates + final byte
//!        │
//!        ├─ key / mouse / focus reports ──▶ Event::Key* / Event::Mouse*
//!        ├─ terminal replies ─────────────▶ Event::Resize / colors / modes
//!        └─ unrecognized complete CSI ────▶ Event::UnknownCsi
//! ```
//!
//! X10 and UTF-8 mouse reports (`CSI M ...`) take bytes after the final byte, and
//! Windows input packets carry state, so both are told apart before the rest.

use crate::ansi::kitty::KittyKeyboardFlags;
use crate::ansi::mode::{setting_of, Mode, ModeSetting};
use crate::bytes::{copy_range, first_from, lemma_first_from};
use crate::event::decode::flags::DecoderFlags;
use crate::event::decode::keys::{
    csi_modifiers, csi_phase, cursor_key, decode_kitty_key, intro_len, key_event_for_phase,
    kitty_event, legacy_key, lookup_legacy_key, phase_event, read_cursor_key, read_modifiers,
    read_phase, recognize_tilde, tilde_event, xterm_modifiers,
};
use crate::event::decode::params::{first_values, param_or, params_of, Params};
use crate::event::decode::result::{optional_view, within, ParseResult, Parsed};
use crate::event::decode::utf8::{lemma_utf8_char_extend, read_char, utf8_char, ReadChar, Utf8Char};
use crate::event::decode::win32::{dispatch_win32_input, packet_parsed, Win32State};
use crate::event::key::{key_of, Key, KeyCode, KeyModifiers};
use crate::event::mouse::{
    decode_x10_mouse, make_mouse_event, mouse_event, to_zero_based, x10_event, zero_based,
};
use crate::event::{
    events_view, lemma_multi_view, ColorScheme, Event, EventView, ModifyOtherKeysMode, Visibility,
};
use crate::layout::{Position, Winsize};
use vstd::prelude::*;
use vstd::slice::*;

verus! {

/// How the decoder reads its input: what the caller chose, and the state that
/// packets leave behind.
#[derive(Debug, Clone, Copy, PartialEq, Eq, Structural)]
pub struct Reading {
    /// Preferred interpretations of ambiguous keys.
    pub flags: DecoderFlags,
    /// Whether `CSI M` coordinates are UTF-8 characters (mode 1005).
    pub utf8_mouse: bool,
    /// Whether partial sequences are resolved because their deadline passed.
    pub expired: bool,
    /// The state of the Windows input packets.
    pub win32: Win32State,
}

/// Whether `b` is a private parameter prefix: `?`, `<`, `>` or `=`.
#[verifier::allow_in_spec]
pub fn is_private(b: u8) -> bool
    returns
        (b == 0x3f || b == 0x3c || b == 0x3e || b == 0x3d),
{
    b == 0x3f || b == 0x3c || b == 0x3e || b == 0x3d
}

/// Where the parameters and intermediates from `i` on end, or the end of `s`. While
/// `suffix` holds, `$` ends them; the first `;` takes that away.
pub open spec fn csi_end(s: Seq<u8>, i: int, suffix: bool) -> int
    decreases s.len() - i,
{
    if i >= s.len() {
        s.len() as int
    } else if s[i] < 0x20 || s[i] > 0x3f || (s[i] == 0x24 && suffix) {
        i
    } else {
        csi_end(s, i + 1, suffix && s[i] != 0x3b)
    }
}

/// Whether `b`, where parameters and intermediates end, is a final byte.
pub open spec fn is_final(b: u8) -> bool {
    0x40 <= b <= 0x7e || b == 0x24
}

/// Matches intermediate bytes.
pub open spec fn intermediates() -> spec_fn(u8) -> bool {
    |b: u8| 0x20 <= b <= 0x2f
}

/// The parts of a CSI body.
#[verifier::ext_equal]
pub struct CsiView {
    /// The private prefix.
    pub private: Option<u8>,
    /// The parameter bytes.
    pub params_raw: Seq<u8>,
    /// The intermediate bytes.
    pub intermediates: Seq<u8>,
    /// The final byte.
    pub final_byte: u8,
}

/// Split a nonempty CSI body, which ends with its final byte.
pub open spec fn split_csi_view(seq: Seq<u8>) -> CsiView {
    let body = seq.drop_last();
    let private = if body.len() > 0 && is_private(body[0]) {
        Some(body[0])
    } else {
        None
    };
    let rest = if private is Some {
        body.subrange(1, body.len() as int)
    } else {
        body
    };
    let mid = first_from(rest, 0, intermediates());
    CsiView {
        private,
        params_raw: rest.subrange(0, mid),
        intermediates: rest.subrange(mid, rest.len() as int),
        final_byte: seq.last(),
    }
}

impl CsiView {
    /// The parameters.
    pub open spec fn params(self) -> Seq<Seq<Option<u32>>> {
        params_of(self.params_raw)
    }

    /// The last intermediate byte, by which a sequence is told apart.
    pub open spec fn intermediate(self) -> Option<u8> {
        if self.intermediates.len() > 0 {
            Some(self.intermediates.last())
        } else {
            None
        }
    }

    /// Neither prefix nor intermediate.
    pub open spec fn plain(self) -> bool {
        self.private is None && self.intermediates.len() == 0
    }

    /// The prefix `p`, and no intermediate.
    pub open spec fn prefixed(self, p: u8) -> bool {
        self.private == Some(p) && self.intermediates.len() == 0
    }
}

/// `CSI Cb;Cx;Cy M` (URxvt), `CSI < Cb;Cx;Cy M/m` (SGR), and the modifyOtherKeys
/// report `CSI > 4 ; n m`.
pub open spec fn mouse_report(c: CsiView) -> Option<EventView> {
    let p = c.params();
    if c.plain() && c.final_byte == 0x4d && p.len() == 3 && param_or(p, 0, 0) >= 32 {
        Some(
            mouse_event(
                (param_or(p, 0, 0) - 32) as u32,
                zero_based(param_or(p, 1, 0)),
                zero_based(param_or(p, 2, 0)),
                false,
            ),
        )
    } else if c.prefixed(0x3c) && p.len() == 3 {
        Some(
            mouse_event(
                param_or(p, 0, 0),
                zero_based(param_or(p, 1, 0)),
                zero_based(param_or(p, 2, 0)),
                c.final_byte == 0x6d,
            ),
        )
    } else if c.prefixed(0x3e) && c.final_byte == 0x6d && p.len() == 2 && param_or(p, 0, 0) == 4 {
        Some(
            EventView::ModifyOtherKeys(
                ModifyOtherKeysMode::from_value(param_or(p, 1, 0) as u8),
            ),
        )
    } else {
        None
    }
}

/// A Kitty key, or the report of the active enhancements `CSI ? flags u`.
pub open spec fn keyboard_report(c: CsiView) -> Option<EventView> {
    let p = c.params();
    if c.plain() {
        kitty_event(p)
    } else if c.prefixed(0x3f) && p.len() == 1 {
        Some(
            EventView::KittyKeyboardEnhancements(
                KittyKeyboardFlags::from_bits_truncate(param_or(p, 0, 0) as u8),
            ),
        )
    } else {
        None
    }
}

/// A report coordinate, at least one.
pub open spec fn at_least_one(v: u32) -> u32 {
    if v < 1 {
        1
    } else {
        v
    }
}

/// `CSI row ; col R`. On row 1 a small column is also the modifier of F3, so both
/// readings are given.
pub open spec fn cursor_report(c: CsiView) -> Option<EventView> {
    let p = c.params();
    if c.plain() && p.len() == 2 {
        let row = at_least_one(param_or(p, 0, 1));
        let col = at_least_one(param_or(p, 1, 1));
        let cpr = EventView::CursorPosition(
            Position { x: (col - 1) as u16, y: (row - 1) as u16 },
        );
        if row == 1 && col - 1 <= 15 {
            Some(
                EventView::Multi(
                    seq![
                        EventView::KeyPress(key_of(KeyCode::F(3), xterm_modifiers(col as u16))),
                        cpr,
                    ],
                ),
            )
        } else {
            Some(cpr)
        }
    } else {
        None
    }
}

/// `CSI ? 997 ; {1|2} n` (color scheme) and `CSI ? 999 ; {1|2} n` (visibility).
pub open spec fn status_report(c: CsiView) -> Option<EventView> {
    let p = c.params();
    let v = param_or(p, 1, 0);
    if !(c.prefixed(0x3f) && p.len() == 2) {
        None
    } else if param_or(p, 0, 0) == 997 && v == 1 {
        Some(EventView::ColorScheme(ColorScheme::Dark))
    } else if param_or(p, 0, 0) == 997 && v == 2 {
        Some(EventView::ColorScheme(ColorScheme::Light))
    } else if param_or(p, 0, 0) == 999 && v == 1 {
        Some(EventView::Visibility(Visibility::Visible))
    } else if param_or(p, 0, 0) == 999 && v == 2 {
        Some(EventView::Visibility(Visibility::Hidden))
    } else {
        None
    }
}

/// `CSI ? … c` (primary) and `CSI > … c` (secondary device attributes).
pub open spec fn attributes_report(c: CsiView) -> Option<EventView> {
    if c.prefixed(0x3f) {
        Some(EventView::PrimaryDeviceAttributes(first_values(c.params(), 0)))
    } else if c.prefixed(0x3e) {
        Some(EventView::SecondaryDeviceAttributes(first_values(c.params(), 0)))
    } else {
        None
    }
}

/// `CSI ? mode ; setting $ y`, and without `?` for an ANSI mode.
pub open spec fn mode_report(c: CsiView) -> Option<EventView> {
    let p = c.params();
    if c.intermediate() == Some(0x24u8) && p.len() == 2 {
        let n = param_or(p, 0, 0) as u16;
        Some(
            EventView::ModeReport {
                mode: if c.private is None {
                    Mode::Ansi(n)
                } else {
                    Mode::Dec(n)
                },
                setting: setting_of((param_or(p, 1, 0) as u16) as int),
            },
        )
    } else {
        None
    }
}

/// `CSI op ; … t`: sizes (4, 6 and 8), in-band resize (48), and other window
/// operations.
pub open spec fn window_report(c: CsiView) -> Option<EventView> {
    let p = c.params();
    let op = param_or(p, 0, 0);
    let height = param_or(p, 1, 0) as u16;
    let width = param_or(p, 2, 0) as u16;
    if !(c.plain() && p.len() > 0) {
        None
    } else if op == 4 && p.len() == 3 {
        Some(EventView::WindowPixelSize { width, height })
    } else if op == 6 && p.len() == 3 {
        Some(EventView::CellPixelSize { width, height })
    } else if op == 8 && p.len() == 3 {
        Some(EventView::WindowCellSize { width, height })
    } else if op == 48 && p.len() >= 3 {
        Some(
            EventView::Resize(
                Winsize {
                    row: height,
                    col: width,
                    ypixel: param_or(p, 3, 0) as u16,
                    xpixel: param_or(p, 4, 0) as u16,
                },
            ),
        )
    } else {
        Some(EventView::WindowOp { op, args: first_values(p, 1) })
    }
}

/// Cursor keys, function keys, Shift+Tab, and the `~` family.
pub open spec fn key_report(c: CsiView, flags: DecoderFlags) -> Option<EventView> {
    let p = c.params();
    if !c.plain() {
        None
    } else if cursor_key(c.final_byte) is Some {
        Some(
            phase_event(
                key_of(cursor_key(c.final_byte)->0, csi_modifiers(p)),
                csi_phase(p),
            ),
        )
    } else if c.final_byte == 0x5a {
        Some(phase_event(key_of(KeyCode::Tab, KeyModifiers::shift()), csi_phase(p)))
    } else if c.final_byte == 0x7e {
        tilde_event(p, flags)
    } else {
        None
    }
}

/// The report that a complete sequence is, by its final byte.
pub open spec fn report(c: CsiView, flags: DecoderFlags) -> Option<EventView> {
    let f = c.final_byte;
    if f == 0x4d || f == 0x6d {
        mouse_report(c)
    } else if f == 0x75 {
        keyboard_report(c)
    } else if f == 0x49 && c.plain() && c.params().len() == 0 {
        Some(EventView::FocusIn)
    } else if f == 0x4f && c.plain() && c.params().len() == 0 {
        Some(EventView::FocusOut)
    } else if f == 0x52 {
        cursor_report(c)
    } else if f == 0x6e {
        status_report(c)
    } else if f == 0x63 && !c.plain() {
        attributes_report(c)
    } else if f == 0x79 {
        mode_report(c)
    } else if f == 0x74 {
        window_report(c)
    } else {
        key_report(c, flags)
    }
}

/// The event of a complete sequence, where it is known: a report, else a legacy
/// key.
pub open spec fn recognized(c: CsiView, flags: DecoderFlags) -> Option<EventView> {
    if report(c, flags) is Some {
        report(c, flags)
    } else if c.plain() {
        legacy_key(c.params(), c.final_byte, flags)
    } else {
        None
    }
}

/// A character value and where it ends.
pub struct CharValue {
    pub value: u32,
    pub end: int,
}

/// The character value at `s[i]` and where it ends: a byte below 0x80, or a
/// multi-byte character.
pub open spec fn utf8_value(s: Seq<u8>, i: int) -> Option<CharValue> {
    if !(0 <= i < s.len()) {
        None
    } else if s[i] < 0x80 {
        Some(CharValue { value: s[i] as u32, end: i + 1 })
    } else {
        match utf8_char(s.subrange(i, s.len() as int)) {
            Utf8Char::Char(c, w) => Some(CharValue { value: c as u32, end: i + w }),
            _ => None,
        }
    }
}

/// The report of three character values from `s[i]` on, and where it ends.
pub open spec fn utf8_mouse_event(s: Seq<u8>, i: int) -> Option<(EventView, int)> {
    match utf8_value(s, i) {
        Some(cb) => match utf8_value(s, cb.end) {
            Some(cx) => match utf8_value(s, cx.end) {
                Some(cy) => match x10_event(cb.value, cx.value, cy.value) {
                    Some(e) => Some((e, cy.end)),
                    None => None,
                },
                None => None,
            },
            None => None,
        },
        None => None,
    }
}

/// The outcome of `CSI M` whose final byte ends at `n`.
pub open spec fn raw_mouse_parsed(cfg: Reading, s: Seq<u8>, n: int) -> Parsed {
    if cfg.utf8_mouse {
        match utf8_mouse_event(s, n) {
            Some((e, k)) => Parsed::Event(e, k),
            None => Parsed::Incomplete,
        }
    } else if s.len() >= n + 3 && x10_event(s[n] as u32, s[n + 1] as u32, s[n + 2] as u32) is Some {
        Parsed::Event(x10_event(s[n] as u32, s[n + 1] as u32, s[n + 2] as u32)->0, n + 3)
    } else {
        Parsed::Incomplete
    }
}

/// The outcome of a complete sequence: `s[start..n]` is its body.
pub open spec fn dispatched(cfg: Reading, s: Seq<u8>, start: int, n: int) -> Parsed {
    let c = split_csi_view(s.subrange(start, n));
    if c.private is None && c.final_byte == 0x4d && c.params_raw.len() == 0 {
        raw_mouse_parsed(cfg, s, n)
    } else if c.private is None && c.final_byte == 0x5f && c.params().len() == 6 {
        packet_parsed(c.params(), cfg.win32, n)
    } else {
        match recognized(c, cfg.flags) {
            Some(e) => Parsed::Event(e, n),
            None => Parsed::Event(EventView::UnknownCsi(s.subrange(start, n)), n),
        }
    }
}

/// The outcome of parsing a CSI sequence at the front of `s`.
pub open spec fn csi_parsed(cfg: Reading, s: Seq<u8>) -> Parsed {
    let start = intro_len(s[0]) as int;
    let private = start < s.len() && is_private(s[start]);
    let i = csi_end(
        s,
        if private {
            start + 1
        } else {
            start
        },
        !private,
    );
    if i >= s.len() {
        Parsed::Incomplete
    } else if is_final(s[i]) {
        dispatched(cfg, s, start, i + 1)
    } else {
        Parsed::Skip(i + 1)
    }
}

/// The parts of a CSI body, with the parameters read.
pub struct Csi {
    private: Option<u8>,
    params_raw: Vec<u8>,
    params: Params,
    intermediates: Vec<u8>,
    final_byte: u8,
}

impl View for Csi {
    type V = CsiView;

    closed spec fn view(&self) -> CsiView {
        CsiView {
            private: self.private,
            params_raw: self.params_raw@,
            intermediates: self.intermediates@,
            final_byte: self.final_byte,
        }
    }
}

impl Csi {
    /// The parameters are those of the parameter bytes.
    pub closed spec fn well_formed(&self) -> bool {
        self.params@ == params_of(self.params_raw@) && self.params.well_formed()
    }

    fn plain(&self) -> (r: bool)
        ensures
            r == self@.plain(),
    {
        self.private.is_none() && self.intermediates.len() == 0
    }

    fn prefixed(&self, p: u8) -> (r: bool)
        ensures
            r == self@.prefixed(p),
    {
        self.intermediates.len() == 0 && match self.private {
            Some(b) => b == p,
            None => false,
        }
    }
}

/// Split a CSI body, which ends with its final byte.
fn split_csi(seq: &[u8]) -> (r: Csi)
    requires
        seq@.len() > 0,
    ensures
        r@ == split_csi_view(seq@),
        r.well_formed(),
{
    let final_byte: u8 = seq[seq.len() - 1];
    let body = slice_subrange(seq, 0, seq.len() - 1);
    assert(body@ =~= seq@.drop_last());
    let mut private: Option<u8> = None;
    let mut rest = body;
    if body.len() > 0 && is_private(body[0]) {
        private = Some(body[0]);
        rest = slice_subrange(body, 1, body.len());
    }
    let mut mid: usize = 0;
    while mid < rest.len() && (rest[mid] < 0x20 || rest[mid] > 0x2f)
        invariant
            0 <= mid <= rest@.len(),
            first_from(rest@, 0, intermediates()) == first_from(
                rest@,
                mid as int,
                intermediates(),
            ),
        decreases rest@.len() - mid,
    {
        mid += 1;
    }
    let params_raw = copy_range(rest, 0, mid);
    let params = Params::from_raw(params_raw.as_slice());
    let intermediates = copy_range(rest, mid, rest.len());
    Csi { private, params_raw, params, intermediates, final_byte }
}

fn recognize_mouse(c: &Csi) -> (r: Option<Event>)
    requires
        c.well_formed(),
        c@.final_byte == 0x4d || c@.final_byte == 0x6d,
    ensures
        optional_view(r) == mouse_report(c@),
{
    let p = &c.params;
    if c.plain() && c.final_byte == 0x4d && p.len() == 3 && p.get_or(0, 0) >= 32 {
        return Some(
            make_mouse_event(
                p.get_or(0, 0) - 32,
                to_zero_based(p.get_or(1, 0)),
                to_zero_based(p.get_or(2, 0)),
                false,
            ),
        );
    }
    if c.prefixed(0x3c) && p.len() == 3 {
        return Some(
            make_mouse_event(
                p.get_or(0, 0),
                to_zero_based(p.get_or(1, 0)),
                to_zero_based(p.get_or(2, 0)),
                c.final_byte == 0x6d,
            ),
        );
    }
    if c.prefixed(0x3e) && c.final_byte == 0x6d && p.len() == 2 && p.get_or(0, 0) == 4 {
        let v: u8 = #[verifier::truncate]
        (p.get_or(1, 0) as u8);
        return Some(Event::ModifyOtherKeys(ModifyOtherKeysMode::from_value(v)));
    }
    None
}

fn recognize_keyboard(c: &Csi) -> (r: Option<Event>)
    requires
        c.well_formed(),
    ensures
        optional_view(r) == keyboard_report(c@),
{
    let p = &c.params;
    if c.plain() {
        return decode_kitty_key(p);
    }
    if c.prefixed(0x3f) && p.len() == 1 {
        let bits: u8 = #[verifier::truncate]
        (p.get_or(0, 0) as u8);
        return Some(
            Event::KittyKeyboardEnhancements(KittyKeyboardFlags::from_bits_truncate(bits)),
        );
    }
    None
}

fn recognize_cursor(c: &Csi) -> (r: Option<Event>)
    requires
        c.well_formed(),
    ensures
        optional_view(r) == cursor_report(c@),
{
    let p = &c.params;
    if !(c.plain() && p.len() == 2) {
        return None;
    }
    let mut row: u32 = p.get_or(0, 1);
    if row < 1 {
        row = 1;
    }
    let mut col: u32 = p.get_or(1, 1);
    if col < 1 {
        col = 1;
    }
    let x: u16 = #[verifier::truncate]
    ((col - 1) as u16);
    let y: u16 = #[verifier::truncate]
    ((row - 1) as u16);
    let cpr = Event::CursorPosition(Position { x, y });
    if row == 1 && col - 1 <= 15 {
        let f3 = Event::KeyPress(Key::of(KeyCode::F(3), xterm_modifiers(col as u16)));
        let ghost parts = seq![f3@, cpr@];
        let mut events: Vec<Event> = Vec::new();
        events.push(f3);
        events.push(cpr);
        proof {
            lemma_multi_view(events);
            assert(events_view(events@) =~= parts);
        }
        return Some(Event::Multi(events));
    }
    Some(cpr)
}

fn recognize_status(c: &Csi) -> (r: Option<Event>)
    requires
        c.well_formed(),
    ensures
        optional_view(r) == status_report(c@),
{
    let p = &c.params;
    if !(c.prefixed(0x3f) && p.len() == 2) {
        return None;
    }
    match (p.get_or(0, 0), p.get_or(1, 0)) {
        (997, 1) => Some(Event::ColorScheme(ColorScheme::Dark)),
        (997, 2) => Some(Event::ColorScheme(ColorScheme::Light)),
        (999, 1) => Some(Event::Visibility(Visibility::Visible)),
        (999, 2) => Some(Event::Visibility(Visibility::Hidden)),
        _ => None,
    }
}

fn recognize_attributes(c: &Csi) -> (r: Option<Event>)
    requires
        c.well_formed(),
    ensures
        optional_view(r) == attributes_report(c@),
{
    if c.prefixed(0x3f) {
        return Some(Event::PrimaryDeviceAttributes(c.params.firsts(0)));
    }
    if c.prefixed(0x3e) {
        return Some(Event::SecondaryDeviceAttributes(c.params.firsts(0)));
    }
    None
}

fn recognize_mode(c: &Csi) -> (r: Option<Event>)
    requires
        c.well_formed(),
    ensures
        optional_view(r) == mode_report(c@),
{
    let p = &c.params;
    let k: usize = c.intermediates.len();
    if p.len() != 2 || k == 0 || c.intermediates[k - 1] != 0x24 {
        return None;
    }
    let n: u16 = #[verifier::truncate]
    (p.get_or(0, 0) as u16);
    let v: u16 = #[verifier::truncate]
    (p.get_or(1, 0) as u16);
    let mode = if c.private.is_none() {
        Mode::Ansi(n)
    } else {
        Mode::Dec(n)
    };
    Some(Event::ModeReport { mode, setting: ModeSetting::from_value(v) })
}

fn recognize_window(c: &Csi) -> (r: Option<Event>)
    requires
        c.well_formed(),
    ensures
        optional_view(r) == window_report(c@),
{
    let p = &c.params;
    if !(c.plain() && p.len() > 0) {
        return None;
    }
    let op: u32 = p.get_or(0, 0);
    let height: u16 = #[verifier::truncate]
    (p.get_or(1, 0) as u16);
    let width: u16 = #[verifier::truncate]
    (p.get_or(2, 0) as u16);
    if op == 4 && p.len() == 3 {
        return Some(Event::WindowPixelSize { width, height });
    }
    if op == 6 && p.len() == 3 {
        return Some(Event::CellPixelSize { width, height });
    }
    if op == 8 && p.len() == 3 {
        return Some(Event::WindowCellSize { width, height });
    }
    if op == 48 && p.len() >= 3 {
        let ypixel: u16 = #[verifier::truncate]
        (p.get_or(3, 0) as u16);
        let xpixel: u16 = #[verifier::truncate]
        (p.get_or(4, 0) as u16);
        return Some(Event::Resize(Winsize { row: height, col: width, ypixel, xpixel }));
    }
    Some(Event::WindowOp { op, args: p.firsts(1) })
}

fn recognize_key(c: &Csi, flags: DecoderFlags) -> (r: Option<Event>)
    requires
        c.well_formed(),
    ensures
        optional_view(r) == key_report(c@, flags),
{
    let p = &c.params;
    if !c.plain() {
        return None;
    }
    if let Some(code) = read_cursor_key(c.final_byte) {
        return Some(key_event_for_phase(Key::of(code, read_modifiers(p)), read_phase(p)));
    }
    match c.final_byte {
        0x5a => Some(
            key_event_for_phase(Key::of(KeyCode::Tab, KeyModifiers::shift()), read_phase(p)),
        ),
        0x7e => recognize_tilde(p, flags),
        _ => None,
    }
}

/// Recognize a complete sequence.
pub fn recognize(c: &Csi, flags: DecoderFlags) -> (r: Option<Event>)
    requires
        c.well_formed(),
    ensures
        optional_view(r) == recognized(c@, flags),
{
    let no_params = c.plain() && c.params.len() == 0;
    let found = match c.final_byte {
        0x4d | 0x6d => recognize_mouse(c),
        0x75 => recognize_keyboard(c),
        0x49 if no_params => Some(Event::FocusIn),
        0x4f if no_params => Some(Event::FocusOut),
        0x52 => recognize_cursor(c),
        0x6e => recognize_status(c),
        0x63 if !c.plain() => recognize_attributes(c),
        0x79 => recognize_mode(c),
        0x74 => recognize_window(c),
        _ => recognize_key(c, flags),
    };
    if found.is_some() {
        return found;
    }
    if c.plain() {
        return lookup_legacy_key(&c.params, c.final_byte, flags);
    }
    None
}

/// Compute [`utf8_value`].
fn read_utf8_value(s: &[u8], i: usize) -> (r: Option<(u32, usize)>)
    requires
        i <= s@.len(),
    ensures
        r is Some == utf8_value(s@, i as int) is Some,
        r matches Some((v, e)) ==> v == utf8_value(s@, i as int)->0.value && e == utf8_value(
            s@,
            i as int,
        )->0.end && e <= s@.len(),
{
    if i >= s.len() {
        return None;
    }
    if s[i] < 0x80 {
        return Some((s[i] as u32, i + 1));
    }
    match read_char(slice_subrange(s, i, s.len())) {
        ReadChar::Char(c, w) => Some((c as u32, i + w)),
        _ => None,
    }
}

/// Parse the values after `CSI M`, whose final byte ends at `n`.
fn parse_raw_mouse(cfg: &Reading, buf: &[u8], n: usize) -> (r: ParseResult)
    requires
        n <= buf@.len(),
    ensures
        r@ == raw_mouse_parsed(*cfg, buf@, n as int),
{
    if cfg.utf8_mouse {
        if let Some((cb, j)) = read_utf8_value(buf, n) {
            if let Some((cx, k)) = read_utf8_value(buf, j) {
                if let Some((cy, l)) = read_utf8_value(buf, k) {
                    if let Some(event) = decode_x10_mouse(cb, cx, cy) {
                        return ParseResult::Event(event, l);
                    }
                }
            }
        }
        return ParseResult::Incomplete;
    }
    if buf.len() - n >= 3 {
        if let Some(event) = decode_x10_mouse(
            buf[n] as u32,
            buf[n + 1] as u32,
            buf[n + 2] as u32,
        ) {
            return ParseResult::Event(event, n + 3);
        }
    }
    ParseResult::Incomplete
}

/// Decode a complete sequence whose body is `buf[start..n]`.
fn dispatch_csi(cfg: &Reading, buf: &[u8], start: usize, n: usize) -> (r: ParseResult)
    requires
        start < n <= buf@.len(),
    ensures
        r@ == dispatched(*cfg, buf@, start as int, n as int),
{
    let c = split_csi(slice_subrange(buf, start, n));
    if c.private.is_none() && c.final_byte == 0x4d && c.params_raw.len() == 0 {
        return parse_raw_mouse(cfg, buf, n);
    }
    if c.private.is_none() && c.final_byte == 0x5f && c.params.len() == 6 {
        return dispatch_win32_input(&c.params, cfg.win32, n);
    }
    match recognize(&c, cfg.flags) {
        Some(e) => ParseResult::Event(e, n),
        None => ParseResult::Event(Event::UnknownCsi(copy_range(buf, start, n)), n),
    }
}

/// Parse a CSI sequence at the front of `buf`.
pub fn parse_csi(cfg: &Reading, buf: &[u8]) -> (r: ParseResult)
    requires
        buf@.len() > 0,
        buf@.len() >= intro_len(buf@[0]),
    ensures
        r@ == csi_parsed(*cfg, buf@),
{
    let start: usize = intro_len(buf[0]);
    let private = start < buf.len() && is_private(buf[start]);
    let first: usize = if private {
        start + 1
    } else {
        start
    };
    let mut i: usize = first;
    let mut suffix = !private;
    while i < buf.len()
        invariant
            first <= i <= buf@.len(),
            buf@.len() > 0,
            start == intro_len(buf@[0]),
            private == (start < buf@.len() && is_private(buf@[start as int])),
            first == (if private {
                start + 1
            } else {
                start as int
            }),
            csi_end(buf@, first as int, !private) == csi_end(buf@, i as int, suffix),
        decreases buf@.len() - i,
    {
        let b: u8 = buf[i];
        if (b >= 0x40 && b <= 0x7e) || (b == 0x24 && suffix) {
            return dispatch_csi(cfg, buf, start, i + 1);
        }
        if b < 0x20 || b > 0x3f {
            return ParseResult::Skip(i + 1);
        }
        if b == 0x3b {
            suffix = false;
        }
        i += 1;
    }
    ParseResult::Incomplete
}

/// The end of the parameters and intermediates is at or after the start of the search.
pub proof fn lemma_csi_end(s: Seq<u8>, i: int, suffix: bool)
    requires
        0 <= i <= s.len(),
    ensures
        i <= csi_end(s, i, suffix) <= s.len(),
    decreases s.len() - i,
{
    if i < s.len() {
        lemma_csi_end(s, i + 1, suffix && s[i] != 0x3b);
    }
}

/// An end that is found stays where it is when more bytes follow.
proof fn lemma_csi_end_extend(s: Seq<u8>, t: Seq<u8>, i: int, suffix: bool)
    requires
        0 <= i <= s.len(),
        csi_end(s, i, suffix) < s.len(),
    ensures
        csi_end(s + t, i, suffix) == csi_end(s, i, suffix),
    decreases s.len() - i,
{
    if i < s.len() && !(s[i] < 0x20 || s[i] > 0x3f || (s[i] == 0x24 && suffix)) {
        lemma_csi_end_extend(s, t, i + 1, suffix && s[i] != 0x3b);
    }
}

/// The split of a body loses and reorders nothing: the private prefix, the parameters, the
/// intermediates and the final byte, put together again, are the body. The prefix is there
/// where the body begins with one and goes on, no parameter byte is an intermediate byte,
/// and the intermediates begin with one.
pub proof fn law_split_loses_nothing(seq: Seq<u8>)
    requires
        seq.len() >= 1,
    ensures
        ({
            let c = split_csi_view(seq);
            let private = match c.private {
                Some(b) => seq![b],
                None => Seq::<u8>::empty(),
            };
            &&& private + c.params_raw + c.intermediates + seq![c.final_byte] == seq
            &&& c.private is Some <==> seq.len() >= 2 && is_private(seq[0])
            &&& forall|i: int|
                0 <= i < c.params_raw.len() ==> !(0x20 <= #[trigger] c.params_raw[i] <= 0x2f)
            &&& c.intermediates.len() > 0 ==> 0x20 <= c.intermediates[0] <= 0x2f
        }),
{
    let c = split_csi_view(seq);
    let body = seq.drop_last();
    let rest = if c.private is Some {
        body.subrange(1, body.len() as int)
    } else {
        body
    };
    lemma_first_from(rest, 0, intermediates());
    assert(c.params_raw + c.intermediates =~= rest);
    let private = match c.private {
        Some(b) => seq![b],
        None => Seq::<u8>::empty(),
    };
    assert(private + c.params_raw + c.intermediates =~= body);
    assert(body + seq![c.final_byte] =~= seq);
}

/// A character value is read the same way when more bytes follow.
proof fn lemma_utf8_value_extend(s: Seq<u8>, t: Seq<u8>, i: int)
    requires
        0 <= i,
        utf8_value(s, i) is Some,
    ensures
        utf8_value(s + t, i) == utf8_value(s, i),
        i < utf8_value(s, i)->0.end <= s.len(),
{
    assert((s + t)[i] == s[i]);
    if s[i] >= 0x80 {
        let rest = s.subrange(i, s.len() as int);
        lemma_utf8_char_extend(rest, t);
        assert((s + t).subrange(i, (s + t).len() as int) =~= rest + t);
    }
}

/// A complete CSI sequence is parsed the same way when more bytes follow.
pub proof fn lemma_csi_extend(cfg: Reading, s: Seq<u8>, t: Seq<u8>)
    requires
        s.len() > 0,
        s.len() >= intro_len(s[0]),
        !(csi_parsed(cfg, s) is Incomplete),
    ensures
        csi_parsed(cfg, s + t) == csi_parsed(cfg, s),
{
    let st = s + t;
    let start = intro_len(s[0]) as int;
    assert(st[0] == s[0]);
    let private = start < s.len() && is_private(s[start]);
    let first = if private {
        start + 1
    } else {
        start
    };
    let i = csi_end(s, first, !private);
    lemma_csi_end(s, first, !private);
    assert(st[start] == s[start]);
    lemma_csi_end_extend(s, t, first, !private);
    assert(st[i] == s[i]);
    let n = i + 1;
    assert(st.subrange(start, n) =~= s.subrange(start, n));
    if is_final(s[i]) {
        let c = split_csi_view(s.subrange(start, n));
        if c.private is None && c.final_byte == 0x4d && c.params_raw.len() == 0 {
            if cfg.utf8_mouse {
                lemma_utf8_value_extend(s, t, n);
                let j = utf8_value(s, n)->0.end;
                lemma_utf8_value_extend(s, t, j);
                let k = utf8_value(s, j)->0.end;
                lemma_utf8_value_extend(s, t, k);
            } else {
                assert(st[n] == s[n]);
                assert(st[n + 1] == s[n + 1]);
                assert(st[n + 2] == s[n + 2]);
            }
        }
    }
}

/// The outcome stays within the input.
pub proof fn lemma_csi_within(cfg: Reading, s: Seq<u8>)
    requires
        s.len() > 0,
        s.len() >= intro_len(s[0]),
    ensures
        within(csi_parsed(cfg, s), s.len()),
{
    let start = intro_len(s[0]) as int;
    let private = start < s.len() && is_private(s[start]);
    let first = if private {
        start + 1
    } else {
        start
    };
    lemma_csi_end(s, first, !private);
    let n = csi_end(s, first, !private) + 1;
    if !(csi_parsed(cfg, s) is Incomplete) {
        let c = split_csi_view(s.subrange(start, n));
        if is_final(s[n - 1]) && c.private is None && c.final_byte == 0x4d
            && c.params_raw.len() == 0 && cfg.utf8_mouse {
            lemma_utf8_value_extend(s, Seq::empty(), n);
            let j = utf8_value(s, n)->0.end;
            lemma_utf8_value_extend(s, Seq::empty(), j);
            let k = utf8_value(s, j)->0.end;
            lemma_utf8_value_extend(s, Seq::empty(), k);
        }
    }
}

} // verus!
