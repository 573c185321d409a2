//! What the mouse reports of each encoding are read as.

use crate::bytes::ESC;
use crate::event::decode::csi::{
    csi_parsed, dispatched, mouse_report, raw_mouse_parsed, recognized, utf8_mouse_event,
    utf8_value, Reading,
};
use crate::event::decode::ground::parsed;
use crate::event::decode::params::params_of;
use crate::event::decode::result::Parsed;
use crate::event::decode::sequences::{csi, lemma_list, lemma_report, list, parts};
use crate::event::decode::utf8::{lemma_encoding_is_read, lemma_utf8_char_extend};
use crate::event::key::KeyModifiers;
use crate::event::mouse::{
    button_of, mouse_event, mouse_modifiers, x10_event, Mouse, MouseButton,
};
use crate::event::EventView;
use vstd::prelude::*;
use vstd::utf8::encode_scalar;

verus! {

/// The code of a button by itself.
pub open spec fn button_number(button: MouseButton) -> nat {
    match button {
        MouseButton::Left => 0,
        MouseButton::Middle => 1,
        MouseButton::Right => 2,
        MouseButton::NoButton => 3,
        MouseButton::WheelUp => 64,
        MouseButton::WheelDown => 65,
        MouseButton::WheelLeft => 66,
        MouseButton::WheelRight => 67,
        MouseButton::Backward => 128,
        MouseButton::Forward => 129,
        MouseButton::Button10 => 130,
        MouseButton::Button11 => 131,
    }
}

/// The button code of a report: the button, 4 for Shift, 8 for Alt, 16 for Control, and 32 for
/// motion.
pub open spec fn report_code(button: MouseButton, modifiers: KeyModifiers, motion: bool) -> nat {
    button_number(button) + (if modifiers.shift {
        4nat
    } else {
        0
    }) + (if modifiers.alt {
        8nat
    } else {
        0
    }) + (if modifiers.ctrl {
        16nat
    } else {
        0
    }) + (if motion {
        32nat
    } else {
        0
    })
}

/// Whether a report can carry these modifiers: Shift, Alt and Control.
pub open spec fn reportable(modifiers: KeyModifiers) -> bool {
    modifiers == (KeyModifiers {
        shift: modifiers.shift,
        alt: modifiers.alt,
        ctrl: modifiers.ctrl,
        ..KeyModifiers::empty()
    })
}

/// Whether a button is a direction of the wheel.
pub open spec fn is_wheel(button: MouseButton) -> bool {
    button is WheelUp || button is WheelDown || button is WheelLeft || button is WheelRight
}

/// What a report says: the wheel turned, the pointer moved, a button went up, or a button went
/// down.
pub open spec fn report_event(m: Mouse, motion: bool, up: bool) -> EventView {
    if is_wheel(m.button) {
        EventView::MouseWheel(m)
    } else if motion {
        EventView::MouseMove(m)
    } else if up || m.button is NoButton {
        EventView::MouseRelease(m)
    } else {
        EventView::MouseClick(m)
    }
}

/// The numbers of a report. Coordinates count from one. Bits from 256 on have no meaning.
pub open spec fn report_numbers(m: Mouse, motion: bool, offset: nat, high: nat) -> Seq<nat> {
    seq![
        report_code(m.button, m.modifiers, motion) + 256 * high + offset,
        (m.x + 1) as nat,
        (m.y + 1) as nat,
    ]
}

/// The digits of a code, the lowest one to the base of four and the others to the base of two.
proof fn lemma_code_digits(q: int, s: int, a: int, c: int, m: int, w: int, e: int, high: int)
    requires
        0 <= q < 4,
        0 <= s < 2,
        0 <= a < 2,
        0 <= c < 2,
        0 <= m < 2,
        0 <= w < 2,
        0 <= e < 2,
        0 <= high,
    ensures
        ({
            let b = q + 4 * s + 8 * a + 16 * c + 32 * m + 64 * w + 128 * e + 256 * high;
            &&& b % 4 == q
            &&& (b / 4) % 2 == s
            &&& (b / 8) % 2 == a
            &&& (b / 16) % 2 == c
            &&& (b / 32) % 2 == m
            &&& (b / 64) % 2 == w
            &&& (b / 128) % 2 == e
        }),
{
    let b = q + 4 * s + 8 * a + 16 * c + 32 * m + 64 * w + 128 * e + 256 * high;
    assert(b / 4 == s + 2 * a + 4 * c + 8 * m + 16 * w + 32 * e + 64 * high);
    assert(b / 8 == a + 2 * c + 4 * m + 8 * w + 16 * e + 32 * high);
    assert(b / 16 == c + 2 * m + 4 * w + 8 * e + 16 * high);
    assert(b / 32 == m + 2 * w + 4 * e + 8 * high);
    assert(b / 64 == w + 2 * e + 4 * high);
    assert(b / 128 == e + 2 * high);
}

/// One for `true`.
spec fn unit(b: bool) -> int {
    if b {
        1
    } else {
        0
    }
}

/// The button, the modifiers and the kind of a code.
proof fn lemma_code(m: Mouse, motion: bool, high: nat, up: bool)
    requires
        reportable(m.modifiers),
        report_code(m.button, m.modifiers, motion) + 256 * high <= u32::MAX,
    ensures
        mouse_event(
            (report_code(m.button, m.modifiers, motion) + 256 * high) as u32,
            m.x,
            m.y,
            up,
        ) == report_event(m, motion, up),
{
    let n = button_number(m.button) as int;
    let (q, w, e) = (n % 4, (n / 64) % 2, n / 128);
    let k = m.modifiers;
    assert(n == q + 64 * w + 128 * e);
    lemma_code_digits(
        q,
        unit(k.shift),
        unit(k.alt),
        unit(k.ctrl),
        unit(motion),
        w,
        e,
        high as int,
    );
    let code = (report_code(m.button, m.modifiers, motion) + 256 * high) as u32;
    assert(code == q + 4 * unit(k.shift) + 8 * unit(k.alt) + 16 * unit(k.ctrl) + 32 * unit(motion)
        + 64 * w + 128 * e + 256 * high);
    assert(button_of(code) == m.button);
    assert(mouse_modifiers(code) == k);
}

/// `ESC [ < code ; x ; y M`, and `m` in place of `M` for a button that goes up.
pub open spec fn sgr_report(m: Mouse, motion: bool, up: bool, high: nat) -> Seq<u8> {
    csi(
        Some(0x3cu8),
        list(report_numbers(m, motion, 0, high)),
        if up {
            0x6d
        } else {
            0x4d
        },
    )
}

/// `ESC [ code ; x ; y M`, with the code offset by 32.
pub open spec fn urxvt_report(m: Mouse, motion: bool, high: nat) -> Seq<u8> {
    csi(None, list(report_numbers(m, motion, 32, high)), 0x4d)
}

/// `ESC [ M` and three bytes, each offset by 32.
pub open spec fn x10_report(m: Mouse, motion: bool) -> Seq<u8> {
    seq![
        ESC,
        0x5bu8,
        0x4du8,
        (report_code(m.button, m.modifiers, motion) + 32) as u8,
        (m.x + 33) as u8,
        (m.y + 33) as u8,
    ]
}

/// The parameters of a report.
proof fn lemma_report_params(m: Mouse, motion: bool, offset: nat, high: nat)
    requires
        report_code(m.button, m.modifiers, motion) + 256 * high + offset <= u32::MAX,
    ensures
        ({
            let p = params_of(
                list(report_numbers(m, motion, offset, high)),
            );
            &&& p.len() == 3
            &&& p[0][0] == Some(
                (report_code(m.button, m.modifiers, motion) + 256 * high + offset) as u32,
            )
            &&& p[1][0] == Some((m.x + 1) as u32)
            &&& p[2][0] == Some((m.y + 1) as u32)
            &&& list(report_numbers(m, motion, offset, high)).len() > 0
        }),
{
    lemma_list(report_numbers(m, motion, offset, high));
}

/// An SGR report is read as what it says of the button, the modifiers and the position, and it
/// tells a button that goes up from one that goes down.
pub proof fn law_sgr_reports_round_trip(
    cfg: Reading,
    m: Mouse,
    motion: bool,
    up: bool,
    high: nat,
    rest: Seq<u8>,
)
    requires
        !cfg.expired,
        reportable(m.modifiers),
        report_code(m.button, m.modifiers, motion) + 256 * high <= u32::MAX,
    ensures
        parsed(cfg, sgr_report(m, motion, up, high) + rest) == Parsed::Event(
            report_event(m, motion, up),
            sgr_report(m, motion, up, high).len() as int,
        ),
{
    let numbers = report_numbers(m, motion, 0, high);
    let last: u8 = if up {
        0x6d
    } else {
        0x4d
    };
    lemma_report_params(m, motion, 0, high);
    lemma_code(m, motion, high, up);
    let c = parts(Some(0x3cu8), list(numbers), last);
    assert(recognized(c, cfg.flags) == mouse_report(c)) by {
        assert(mouse_report(c) is Some);
    }
    assert(mouse_report(c) == Some(report_event(m, motion, up)));
    lemma_report(cfg, Some(0x3cu8), numbers, last, report_event(m, motion, up), rest);
}

/// A URxvt report is read as the SGR report of the same button, modifiers and position that
/// does not say that a button goes up.
pub proof fn law_urxvt_reports_round_trip(
    cfg: Reading,
    m: Mouse,
    motion: bool,
    high: nat,
    rest: Seq<u8>,
)
    requires
        !cfg.expired,
        reportable(m.modifiers),
        report_code(m.button, m.modifiers, motion) + 256 * high + 32 <= u32::MAX,
    ensures
        parsed(cfg, urxvt_report(m, motion, high) + rest) == Parsed::Event(
            report_event(m, motion, false),
            urxvt_report(m, motion, high).len() as int,
        ),
{
    let numbers = report_numbers(m, motion, 32, high);
    lemma_report_params(m, motion, 32, high);
    lemma_code(m, motion, high, false);
    let c = parts(None, list(numbers), 0x4d);
    assert(recognized(c, cfg.flags) == mouse_report(c)) by {
        assert(mouse_report(c) is Some);
    }
    assert(mouse_report(c) == Some(report_event(m, motion, false)));
    lemma_report(cfg, None, numbers, 0x4d, report_event(m, motion, false), rest);
}

/// An X10 report is read as the SGR report of the same button, modifiers and position that
/// does not say that a button goes up, as far as its bytes reach.
pub proof fn law_x10_reports_round_trip(cfg: Reading, m: Mouse, motion: bool, rest: Seq<u8>)
    requires
        !cfg.expired,
        !cfg.utf8_mouse,
        reportable(m.modifiers),
        report_code(m.button, m.modifiers, motion) + 32 <= 255,
        m.x + 33 <= 255,
        m.y + 33 <= 255,
    ensures
        parsed(cfg, x10_report(m, motion) + rest) == Parsed::Event(
            report_event(m, motion, false),
            6,
        ),
{
    let s = x10_report(m, motion) + rest;
    lemma_raw_report(cfg, s);
    lemma_code(m, motion, 0, false);
}

/// `ESC [ M` takes the bytes that follow it.
proof fn lemma_raw_report(cfg: Reading, s: Seq<u8>)
    requires
        s.len() >= 3,
        s[0] == ESC,
        s[1] == 0x5b,
        s[2] == 0x4d,
    ensures
        parsed(cfg, s) == raw_mouse_parsed(cfg, s, 3),
{
    reveal(parsed);
    assert(csi_parsed(cfg, s) == dispatched(cfg, s, 2, 3));
    let body = s.subrange(2, 3);
    assert(body =~= seq![0x4du8]);
    assert(body.drop_last() =~= Seq::<u8>::empty());
}

/// The bytes of a value as a character.
pub open spec fn value_bytes(v: nat) -> Seq<u8> {
    encode_scalar(v as u32)
}

/// `ESC [ M` and three characters, each offset by 32.
pub open spec fn utf8_report(m: Mouse, motion: bool) -> Seq<u8> {
    seq![ESC, 0x5bu8, 0x4du8] + value_bytes(report_code(m.button, m.modifiers, motion) + 32)
        + value_bytes((m.x + 33) as nat) + value_bytes((m.y + 33) as nat)
}

/// A value that is written as a character is read, wherever it is.
proof fn lemma_value(a: Seq<u8>, v: nat, b: Seq<u8>)
    requires
        v < 0xd800,
    ensures
        ({
            let s = a + value_bytes(v) + b;
            let r = utf8_value(s, a.len() as int);
            &&& r is Some
            &&& r->0.value == v
            &&& r->0.end == a.len() + value_bytes(v).len()
        }),
{
    let s = a + value_bytes(v) + b;
    let e = value_bytes(v);
    let c = v as u32 as char;
    if v < 0x80 {
        assert(e =~= seq![v as u8]) by {
            let u = v as u32;
            assert((u & 0x7f) as u8 == u as u8) by (bit_vector)
                requires
                    u < 0x80,
            ;
        }
        assert(s[a.len() as int] == e[0]);
    } else {
        lemma_encoding_is_read(c);
        lemma_utf8_char_extend(e, b);
        assert(s.subrange(a.len() as int, s.len() as int) =~= e + b);
        assert(s[a.len() as int] == e[0]);
    }
}

/// A report in UTF-8 is read as the SGR report of the same button, modifiers and position that
/// does not say that a button goes up.
pub proof fn law_utf8_reports_round_trip(cfg: Reading, m: Mouse, motion: bool, rest: Seq<u8>)
    requires
        !cfg.expired,
        cfg.utf8_mouse,
        reportable(m.modifiers),
        m.x + 33 < 0xd800,
        m.y + 33 < 0xd800,
    ensures
        parsed(cfg, utf8_report(m, motion) + rest) == Parsed::Event(
            report_event(m, motion, false),
            utf8_report(m, motion).len() as int,
        ),
{
    let code = report_code(m.button, m.modifiers, motion);
    let intro = seq![ESC, 0x5bu8, 0x4du8];
    let (a, b, c) = (
        value_bytes(code + 32),
        value_bytes((m.x + 33) as nat),
        value_bytes((m.y + 33) as nat),
    );
    let s = utf8_report(m, motion) + rest;
    lemma_raw_report(cfg, s);
    assert(s =~= intro + a + (b + c + rest));
    assert(s =~= (intro + a) + b + (c + rest));
    assert(s =~= (intro + a + b) + c + rest);
    lemma_value(intro, code + 32, b + c + rest);
    lemma_value(intro + a, (m.x + 33) as nat, c + rest);
    lemma_value(intro + a + b, (m.y + 33) as nat, rest);
    lemma_values(m, motion);
    assert(utf8_mouse_event(s, 3) == Some(
        (report_event(m, motion, false), utf8_report(m, motion).len() as int),
    ));
}

/// The values of a report, each offset by 32.
proof fn lemma_values(m: Mouse, motion: bool)
    requires
        reportable(m.modifiers),
    ensures
        report_code(m.button, m.modifiers, motion) <= 255,
        x10_event(
            (report_code(m.button, m.modifiers, motion) + 32) as u32,
            (m.x + 33) as u32,
            (m.y + 33) as u32,
        ) == Some(report_event(m, motion, false)),
{
    lemma_code(m, motion, 0, false);
}

} // verus!
