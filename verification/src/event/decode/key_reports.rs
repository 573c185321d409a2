//! What the sequences of keys are read as.

use crate::bytes::{
    digits, field_value, is_digit, lemma_decimal_of_digits, lemma_first_from_is, lemma_split_one,
    lemma_split_append, lemma_split_two, split, ESC,
};
use crate::event::decode::csi::{
    csi_end, csi_parsed, dispatched, intermediates, recognized, split_csi_view, Reading,
};
use crate::event::decode::ground::{introduces, lemma_parsed_extend, parsed};
use crate::event::decode::flags::DecoderFlags;
use crate::event::decode::keys::{
    csi_modifiers, kitty_event, kitty_text, spelled, tilde_event, tilde_key, urxvt_arrow, xterm_modifiers, Phase,
};
use crate::event::decode::params::{param_or, params_of, sub_params};
use crate::event::decode::result::Parsed;
use crate::event::decode::sequences::{
    csi, lemma_csi, lemma_digit_bytes, lemma_list, lemma_report, lemma_sub_list, list, parts,
    sub_list,
};
use crate::event::decode::ss3::{non_digit, ss3_key, ss3_modifiers, ss3_parsed};
use crate::event::key::{
    key_of, law_functional_keys_round_trip, plain_key, scalar, KeyCode, KeyModifiers, KeyView,
};
use crate::event::EventView;
use vstd::prelude::*;

verus! {

/// One for a modifier that is held.
pub open spec fn held(modifier: bool) -> nat {
    if modifier {
        1
    } else {
        0
    }
}

/// The modifier parameter of a key: one, and 1 for Shift, 2 for Alt, 4 for Control, 8 for
/// Super, 16 for Hyper, 32 for Meta, 64 for Caps Lock, and 128 for Num Lock.
#[verifier::opaque]
pub open spec fn modifier_parameter(k: KeyModifiers) -> nat {
    1 + held(k.shift) + 2 * held(k.alt) + 4 * held(k.ctrl) + 8 * held(k.super_key) + 16 * held(
        k.hyper,
    ) + 32 * held(k.meta) + 64 * held(k.caps_lock) + 128 * held(k.num_lock)
}

/// The bits of a mask.
proof fn lemma_mask_bits(a: int, b: int, c: int, d: int, e: int, f: int, g: int, h: int)
    requires
        0 <= a < 2,
        0 <= b < 2,
        0 <= c < 2,
        0 <= d < 2,
        0 <= e < 2,
        0 <= f < 2,
        0 <= g < 2,
        0 <= h < 2,
    ensures
        ({
            let m = a + 2 * b + 4 * c + 8 * d + 16 * e + 32 * f + 64 * g + 128 * h;
            &&& m % 2 == a
            &&& (m / 2) % 2 == b
            &&& (m / 4) % 2 == c
            &&& (m / 8) % 2 == d
            &&& (m / 16) % 2 == e
            &&& (m / 32) % 2 == f
            &&& (m / 64) % 2 == g
            &&& (m / 128) % 2 == h
        }),
{
    let m = a + 2 * b + 4 * c + 8 * d + 16 * e + 32 * f + 64 * g + 128 * h;
    let m6 = g + 2 * h;
    let m5 = f + 2 * m6;
    let m4 = e + 2 * m5;
    let m3 = d + 2 * m4;
    let m2 = c + 2 * m3;
    let m1 = b + 2 * m2;
    assert(m == a + 2 * m1);
    lemma_halved(m, a, m1);
    lemma_halved(m1, b, m2);
    lemma_halved(m2, c, m3);
    lemma_halved(m3, d, m4);
    lemma_halved(m4, e, m5);
    lemma_halved(m5, f, m6);
    lemma_halved(m6, g, h);
    assert(m / 4 == (m / 2) / 2);
    assert(m / 8 == (m / 4) / 2);
    assert(m / 16 == (m / 8) / 2);
    assert(m / 32 == (m / 16) / 2);
    assert(m / 64 == (m / 32) / 2);
    assert(m / 128 == (m / 64) / 2);
}

/// A number with its lowest bit split off.
proof fn lemma_halved(n: int, bit: int, rest: int)
    requires
        n == bit + 2 * rest,
        0 <= bit < 2,
    ensures
        n % 2 == bit,
        n / 2 == rest,
{
}

/// The bits of the mask are the modifiers.
proof fn lemma_mask(k: KeyModifiers, m: int)
    requires
        m == modifier_parameter(k) - 1,
    ensures
        0 <= m <= 255,
        (m % 2 == 1) == k.shift,
        ((m / 2) % 2 == 1) == k.alt,
        ((m / 4) % 2 == 1) == k.ctrl,
        ((m / 8) % 2 == 1) == k.super_key,
        ((m / 16) % 2 == 1) == k.hyper,
        ((m / 32) % 2 == 1) == k.meta,
        ((m / 64) % 2 == 1) == k.caps_lock,
        ((m / 128) % 2 == 1) == k.num_lock,
{
    reveal(modifier_parameter);
    lemma_mask_bits(
        held(k.shift) as int,
        held(k.alt) as int,
        held(k.ctrl) as int,
        held(k.super_key) as int,
        held(k.hyper) as int,
        held(k.meta) as int,
        held(k.caps_lock) as int,
        held(k.num_lock) as int,
    );
}

/// The modifier parameter is read as the modifiers it was written for. Scroll Lock has no
/// place in it.
pub proof fn law_modifiers_round_trip(k: KeyModifiers)
    requires
        !k.scroll_lock,
    ensures
        1 <= modifier_parameter(k) <= 256,
        xterm_modifiers(modifier_parameter(k) as u16) == k,
{
    let m = modifier_parameter(k) - 1;
    lemma_mask(k, m);
    assert(KeyModifiers::from_wire(m as u32) == k);
}

/// The number of a phase.
pub open spec fn phase_number(phase: Phase) -> nat {
    match phase {
        Phase::Press => 1,
        Phase::Repeat => 2,
        Phase::Release => 3,
    }
}

/// The event of a key that goes down, is held, or goes up.
pub open spec fn key_phase_event(k: KeyView, phase: Phase) -> EventView {
    match phase {
        Phase::Press => EventView::KeyPress(k),
        Phase::Repeat => EventView::KeyRepeat(k),
        Phase::Release => EventView::KeyRelease(k),
    }
}

/// The parameter bytes `n ; modifiers : phase`.
pub open spec fn phased(n: nat, k: KeyModifiers, phase: Phase) -> Seq<u8> {
    digits(n) + seq![0x3bu8] + (digits(modifier_parameter(k)) + seq![0x3au8] + digits(
        phase_number(phase),
    ))
}

/// Those bytes are read as those numbers.
proof fn lemma_phased(n: nat, k: KeyModifiers, phase: Phase)
    requires
        n <= u32::MAX,
    ensures
        ({
            let p = params_of(phased(n, k, phase));
            &&& p.len() == 2
            &&& p[0] == seq![Some(n as u32)]
            &&& p[1] == seq![
                Some(modifier_parameter(k) as u32),
                Some(phase_number(phase) as u32),
            ]
            &&& phased(n, k, phase).len() > 0
            &&& forall|i: int|
                0 <= i < phased(n, k, phase).len() ==> 0x30 <= #[trigger] phased(n, k, phase)[i]
                    <= 0x3b
        }),
{
    let (m, q) = (modifier_parameter(k), phase_number(phase));
    let (a, b, c) = (digits(n), digits(m), digits(q));
    let raw = phased(n, k, phase);
    lemma_mask(k, m - 1);
    let second = b + seq![0x3au8] + c;
    lemma_digit_bytes(n);
    lemma_digit_bytes(m);
    lemma_digit_bytes(q);
    lemma_decimal_of_digits(n);
    lemma_decimal_of_digits(m);
    lemma_decimal_of_digits(q);
    assert forall|i: int| 0 <= i < second.len() implies 0x30 <= #[trigger] second[i] <= 0x3a by {
        if i < b.len() {
            assert(second[i] == b[i]);
        } else if i > b.len() {
            assert(second[i] == c[i - b.len() - 1]);
        }
    }
    assert forall|i: int| 0 <= i < raw.len() implies 0x30 <= #[trigger] raw[i] <= 0x3b by {
        if i < a.len() {
            assert(raw[i] == a[i]);
        } else if i > a.len() {
            assert(raw[i] == second[i - a.len() - 1]);
        }
    }
    lemma_split_two(a, second, 0x3b);
    lemma_split_one(a, 0x3a);
    lemma_split_two(b, c, 0x3a);
    assert(sub_params(a) =~= seq![Some(n as u32)]);
    assert(sub_params(second) =~= seq![Some(m as u32), Some(q as u32)]);
}

/// The final byte of a cursor key, and of the function keys that have one.
pub open spec fn cursor_final(code: KeyCode) -> Option<u8> {
    match code {
        KeyCode::Up => Some(0x41u8),
        KeyCode::Down => Some(0x42u8),
        KeyCode::Right => Some(0x43u8),
        KeyCode::Left => Some(0x44u8),
        KeyCode::KpBegin => Some(0x45u8),
        KeyCode::End => Some(0x46u8),
        KeyCode::Home => Some(0x48u8),
        KeyCode::F(1) => Some(0x50u8),
        KeyCode::F(2) => Some(0x51u8),
        KeyCode::F(4) => Some(0x53u8),
        _ => None,
    }
}

/// A cursor key by itself is a press of that key without modifiers, and with modifiers and a
/// phase it is that key with those modifiers in that phase.
pub proof fn law_cursor_keys_round_trip(
    cfg: Reading,
    code: KeyCode,
    k: KeyModifiers,
    phase: Phase,
    rest: Seq<u8>,
)
    requires
        !cfg.expired,
        cursor_final(code) is Some,
        !k.scroll_lock,
    ensures
        parsed(cfg, seq![ESC, 0x5bu8, cursor_final(code)->0] + rest) == Parsed::Event(
            EventView::KeyPress(plain_key(code, KeyModifiers::empty())),
            3,
        ),
        ({
            let s = csi(None, list(seq![1nat, modifier_parameter(k)]), cursor_final(code)->0);
            parsed(cfg, s + rest) == Parsed::Event(
                EventView::KeyPress(plain_key(code, k)),
                s.len() as int,
            )
        }),
        ({
            let s = csi(None, phased(1, k, phase), cursor_final(code)->0);
            parsed(cfg, s + rest) == Parsed::Event(
                key_phase_event(plain_key(code, k), phase),
                s.len() as int,
            )
        }),
{
    lemma_bare_cursor_key(cfg, code, rest);
    lemma_cursor_key_with_modifiers(cfg, code, k, rest);
    let f = cursor_final(code)->0;
    law_modifiers_round_trip(k);
    lemma_phased(1, k, phase);
    let raw = phased(1, k, phase);
    assert(recognized(parts(None, raw, f), cfg.flags) == Some(
        key_phase_event(plain_key(code, k), phase),
    ));
    lemma_csi(cfg, None, raw, f);
    lemma_parsed_extend(cfg, csi(None, raw, f), rest);
}

/// A cursor key by itself.
proof fn lemma_bare_cursor_key(cfg: Reading, code: KeyCode, rest: Seq<u8>)
    requires
        !cfg.expired,
        cursor_final(code) is Some,
    ensures
        parsed(cfg, seq![ESC, 0x5bu8, cursor_final(code)->0] + rest) == Parsed::Event(
            EventView::KeyPress(plain_key(code, KeyModifiers::empty())),
            3,
        ),
{
    let f = cursor_final(code)->0;
    let none = Seq::<nat>::empty();
    lemma_list(none);
    assert(xterm_modifiers(1) == KeyModifiers::empty());
    let bare = EventView::KeyPress(plain_key(code, KeyModifiers::empty()));
    assert(recognized(parts(None, list(none), f), cfg.flags) == Some(bare));
    lemma_report(cfg, None, none, f, bare, rest);
    assert(csi(None, list(none), f) =~= seq![ESC, 0x5bu8, f]);
}

/// A cursor key with modifiers.
proof fn lemma_cursor_key_with_modifiers(
    cfg: Reading,
    code: KeyCode,
    k: KeyModifiers,
    rest: Seq<u8>,
)
    requires
        !cfg.expired,
        cursor_final(code) is Some,
        !k.scroll_lock,
    ensures
        ({
            let s = csi(None, list(seq![1nat, modifier_parameter(k)]), cursor_final(code)->0);
            parsed(cfg, s + rest) == Parsed::Event(
                EventView::KeyPress(plain_key(code, k)),
                s.len() as int,
            )
        }),
{
    let f = cursor_final(code)->0;
    law_modifiers_round_trip(k);
    let two = seq![1nat, modifier_parameter(k)];
    lemma_list(two);
    let p = params_of(list(two));
    assert(p[1][0] == Some(modifier_parameter(k) as u32));
    assert(p[1].len() == 1);
    let held = EventView::KeyPress(plain_key(code, k));
    assert(recognized(parts(None, list(two), f), cfg.flags) == Some(held));
    lemma_report(cfg, None, two, f, held, rest);
}

/// The number of a key in the Kitty protocol.
pub open spec fn kitty_number(code: KeyCode) -> nat {
    match code {
        KeyCode::F(n) => (57363 + n) as nat,
        KeyCode::KpDigit(n) => (57399 + n) as nat,
        _ => code.functional_number() as nat,
    }
}

/// Whether a key has such a number.
pub open spec fn has_kitty_number(code: KeyCode) -> bool {
    match code {
        KeyCode::F(n) => 1 <= n <= 35,
        KeyCode::KpDigit(n) => n <= 9,
        _ => code.functional_number() >= 57344,
    }
}

/// A functional key of the Kitty protocol is that key, with its modifiers and its phase.
pub proof fn law_kitty_keys_round_trip(
    cfg: Reading,
    code: KeyCode,
    k: KeyModifiers,
    phase: Phase,
    rest: Seq<u8>,
)
    requires
        !cfg.expired,
        has_kitty_number(code),
        !k.scroll_lock,
    ensures
        ({
            let s = csi(None, phased(kitty_number(code), k, phase), 0x75);
            parsed(cfg, s + rest) == Parsed::Event(
                key_phase_event(plain_key(code, k), phase),
                s.len() as int,
            )
        }),
{
    let n = kitty_number(code);
    let raw = phased(n, k, phase);
    law_modifiers_round_trip(k);
    if code.functional_number() >= 57344 {
        law_functional_keys_round_trip(code);
    }
    lemma_phased(n, k, phase);
    assert(recognized(parts(None, raw, 0x75), cfg.flags) == Some(
        key_phase_event(plain_key(code, k), phase),
    ));
    lemma_csi(cfg, None, raw, 0x75);
    lemma_parsed_extend(cfg, csi(None, raw, 0x75), rest);
}

/// A cursor key is the same event as the key of its Kitty number.
pub proof fn law_cursor_keys_agree_with_kitty(
    cfg: Reading,
    code: KeyCode,
    k: KeyModifiers,
    phase: Phase,
)
    requires
        !cfg.expired,
        cursor_final(code) is Some,
        !k.scroll_lock,
    ensures
        ({
            let a = csi(None, phased(1, k, phase), cursor_final(code)->0);
            let b = csi(None, phased(kitty_number(code), k, phase), 0x75);
            parsed(cfg, a) is Event && parsed(cfg, b) is Event && parsed(cfg, a)->Event_0
                == parsed(cfg, b)->Event_0
        }),
{
    let rest = Seq::<u8>::empty();
    let a = csi(None, phased(1, k, phase), cursor_final(code)->0);
    let b = csi(None, phased(kitty_number(code), k, phase), 0x75);
    law_cursor_keys_round_trip(cfg, code, k, phase, rest);
    law_kitty_keys_round_trip(cfg, code, k, phase, rest);
    assert(a + rest =~= a);
    assert(b + rest =~= b);
}

/// Whether `n` is a number of the key `code` among the numbered keys. Home and End have two
/// numbers, of which the flags may take one for Find and Select.
pub open spec fn is_number_of(n: nat, code: KeyCode, find: bool, select: bool) -> bool {
    match code {
        KeyCode::Home => n == 7 || (n == 1 && !find),
        KeyCode::Find => n == 1 && find,
        KeyCode::Insert => n == 2,
        KeyCode::Delete => n == 3,
        KeyCode::End => n == 8 || (n == 4 && !select),
        KeyCode::Select => n == 4 && select,
        KeyCode::PageUp => n == 5,
        KeyCode::PageDown => n == 6,
        KeyCode::F(f) => {
            ||| 1 <= f <= 5 && n == 10 + f
            ||| 6 <= f <= 10 && n == 11 + f
            ||| 11 <= f <= 14 && n == 12 + f
            ||| 15 <= f <= 16 && n == 13 + f
            ||| 17 <= f <= 20 && n == 14 + f
        },
        _ => false,
    }
}

/// A numbered key is the key of its number, with its modifiers and its phase.
pub proof fn law_numbered_keys_round_trip(
    cfg: Reading,
    n: nat,
    code: KeyCode,
    k: KeyModifiers,
    phase: Phase,
    rest: Seq<u8>,
)
    requires
        !cfg.expired,
        is_number_of(n, code, cfg.flags.find_key, cfg.flags.select_key),
        !k.scroll_lock,
    ensures
        ({
            let s = csi(None, digits(n), 0x7e);
            parsed(cfg, s + rest) == Parsed::Event(
                EventView::KeyPress(plain_key(code, KeyModifiers::empty())),
                s.len() as int,
            )
        }),
        ({
            let s = csi(None, phased(n, k, phase), 0x7e);
            parsed(cfg, s + rest) == Parsed::Event(
                key_phase_event(plain_key(code, k), phase),
                s.len() as int,
            )
        }),
{
    lemma_bare_numbered_key(cfg, n, code, rest);
    law_modifiers_round_trip(k);
    lemma_number_names(n, code, cfg.flags);
    let raw = phased(n, k, phase);
    lemma_phased(n, k, phase);
    let p = params_of(raw);
    assert(param_or(p, 0, 0) == n);
    assert(csi_modifiers(p) == k);
    assert(tilde_event(p, cfg.flags) == Some(key_phase_event(plain_key(code, k), phase)));
    assert(recognized(parts(None, raw, 0x7e), cfg.flags) == tilde_event(p, cfg.flags));
    lemma_csi(cfg, None, raw, 0x7e);
    lemma_parsed_extend(cfg, csi(None, raw, 0x7e), rest);
}

/// The number of a key names that key.
proof fn lemma_number_names(n: nat, code: KeyCode, flags: DecoderFlags)
    requires
        is_number_of(n, code, flags.find_key, flags.select_key),
    ensures
        tilde_key(n as int, flags) == Some(code),
        1 <= n <= 34,
        n != 27,
        !(code is Char) && !(code is Space),
{
}

/// A numbered key by itself.
proof fn lemma_bare_numbered_key(cfg: Reading, n: nat, code: KeyCode, rest: Seq<u8>)
    requires
        !cfg.expired,
        is_number_of(n, code, cfg.flags.find_key, cfg.flags.select_key),
    ensures
        ({
            let s = csi(None, digits(n), 0x7e);
            parsed(cfg, s + rest) == Parsed::Event(
                EventView::KeyPress(plain_key(code, KeyModifiers::empty())),
                s.len() as int,
            )
        }),
{
    let one = seq![n];
    lemma_number_names(n, code, cfg.flags);
    lemma_list(one);
    assert(list(one) == digits(n));
    let p = params_of(list(one));
    assert(p[0][0] == Some(n as u32));
    assert(xterm_modifiers(1) == KeyModifiers::empty());
    let bare = EventView::KeyPress(plain_key(code, KeyModifiers::empty()));
    assert(tilde_event(p, cfg.flags) == Some(bare));
    assert(recognized(parts(None, list(one), 0x7e), cfg.flags) == tilde_event(p, cfg.flags));
    lemma_report(cfg, None, one, 0x7e, bare, rest);
}

/// A numbered key with a URxvt suffix is that key with the modifiers of the suffix: Control
/// for `^`, Control and Shift for `@`.
pub proof fn law_suffixed_keys_round_trip(cfg: Reading, n: nat, code: KeyCode, rest: Seq<u8>)
    requires
        !cfg.expired,
        is_number_of(n, code, cfg.flags.find_key, cfg.flags.select_key),
    ensures
        ({
            let s = csi(None, digits(n), 0x5e);
            parsed(cfg, s + rest) == Parsed::Event(
                EventView::KeyPress(
                    plain_key(code, KeyModifiers { ctrl: true, ..KeyModifiers::empty() }),
                ),
                s.len() as int,
            )
        }),
        ({
            let s = csi(None, digits(n), 0x40);
            parsed(cfg, s + rest) == Parsed::Event(
                EventView::KeyPress(
                    plain_key(
                        code,
                        KeyModifiers { ctrl: true, shift: true, ..KeyModifiers::empty() },
                    ),
                ),
                s.len() as int,
            )
        }),
{
    let one = seq![n];
    lemma_number_names(n, code, cfg.flags);
    lemma_list(one);
    assert(list(one) == digits(n));
    let p = params_of(list(one));
    assert(p[0][0] == Some(n as u32));
    let a = EventView::KeyPress(
        plain_key(code, KeyModifiers { ctrl: true, ..KeyModifiers::empty() }),
    );
    assert(recognized(parts(None, list(one), 0x5e), cfg.flags) == Some(a));
    lemma_report(cfg, None, one, 0x5e, a, rest);
    let b = EventView::KeyPress(
        plain_key(code, KeyModifiers { ctrl: true, shift: true, ..KeyModifiers::empty() }),
    );
    assert(recognized(parts(None, list(one), 0x40), cfg.flags) == Some(b));
    lemma_report(cfg, None, one, 0x40, b, rest);
}

/// Digits run to a suffix.
proof fn lemma_suffix_end(s: Seq<u8>, i: int, k: int)
    requires
        0 <= i <= k < s.len(),
        forall|j: int| i <= j < k ==> 0x30 <= #[trigger] s[j] <= 0x39,
        s[k] == 0x24,
    ensures
        csi_end(s, i, true) == k,
    decreases k - i,
{
    if i < k {
        lemma_suffix_end(s, i + 1, k);
    }
}

/// A numbered key with the URxvt suffix `$` is that key with Shift.
pub proof fn law_shifted_keys_round_trip(cfg: Reading, n: nat, code: KeyCode, rest: Seq<u8>)
    requires
        !cfg.expired,
        is_number_of(n, code, cfg.flags.find_key, cfg.flags.select_key),
    ensures
        ({
            let s = csi(None, digits(n), 0x24);
            parsed(cfg, s + rest) == Parsed::Event(
                EventView::KeyPress(
                    plain_key(code, KeyModifiers { shift: true, ..KeyModifiers::empty() }),
                ),
                s.len() as int,
            )
        }),
{
    let s = csi(None, digits(n), 0x24);
    let d = digits(n);
    let one = seq![n];
    lemma_number_names(n, code, cfg.flags);
    lemma_list(one);
    assert(list(one) == d);
    lemma_digit_bytes(n);
    let p = params_of(d);
    assert(p[0][0] == Some(n as u32));
    assert forall|j: int| 2 <= j < s.len() - 1 implies 0x30 <= #[trigger] s[j] <= 0x39 by {
        assert(s[j] == d[j - 2]);
    }
    assert(s[2] == d[0]);
    lemma_suffix_end(s, 2, s.len() - 1);
    let body = s.subrange(2, s.len() as int);
    assert(body =~= d + seq![0x24u8]);
    assert(body.drop_last() =~= d);
    lemma_first_from_is(d, 0, d.len() as int, intermediates());
    assert(d.subrange(0, d.len() as int) =~= d);
    assert(split_csi_view(body) =~= parts(None, d, 0x24));
    assert(parsed(cfg, s) == csi_parsed(cfg, s)) by {
        reveal(parsed);
    }
    assert(csi_parsed(cfg, s) == dispatched(cfg, s, 2, s.len() as int));
    lemma_parsed_extend(cfg, s, rest);
}

/// The lower-case final bytes of the arrows are those arrows with Shift, `ESC [ Z` is Shift and
/// Tab, and focus and paste have their own sequences.
pub proof fn law_bare_sequences_round_trip(cfg: Reading, code: KeyCode, rest: Seq<u8>)
    requires
        !cfg.expired,
        code is Up || code is Down || code is Right || code is Left,
    ensures
        parsed(cfg, seq![ESC, 0x5bu8, (cursor_final(code)->0 + 0x20) as u8] + rest)
            == Parsed::Event(
            EventView::KeyPress(
                plain_key(code, KeyModifiers { shift: true, ..KeyModifiers::empty() }),
            ),
            3,
        ),
        parsed(cfg, seq![ESC, 0x5bu8, 0x5au8] + rest) == Parsed::Event(
            EventView::KeyPress(
                plain_key(KeyCode::Tab, KeyModifiers { shift: true, ..KeyModifiers::empty() }),
            ),
            3,
        ),
        parsed(cfg, seq![ESC, 0x5bu8, 0x49u8] + rest) == Parsed::Event(EventView::FocusIn, 3),
        parsed(cfg, seq![ESC, 0x5bu8, 0x4fu8] + rest) == Parsed::Event(EventView::FocusOut, 3),
        parsed(cfg, csi(None, digits(200), 0x7e) + rest) == Parsed::Event(
            EventView::PasteStart,
            csi(None, digits(200), 0x7e).len() as int,
        ),
        parsed(cfg, csi(None, digits(201), 0x7e) + rest) == Parsed::Event(
            EventView::PasteEnd,
            csi(None, digits(201), 0x7e).len() as int,
        ),
{
    let none = Seq::<nat>::empty();
    lemma_list(none);
    let shift = KeyModifiers { shift: true, ..KeyModifiers::empty() };
    let f = (cursor_final(code)->0 + 0x20) as u8;
    let e = EventView::KeyPress(plain_key(code, shift));
    assert(recognized(parts(None, list(none), f), cfg.flags) == Some(e));
    lemma_report(cfg, None, none, f, e, rest);
    assert(csi(None, list(none), f) =~= seq![ESC, 0x5bu8, f]);
    lemma_tab_and_focus(cfg, rest);
    lemma_paste_bounds(cfg, rest);
}

/// `ESC [ Z`, `ESC [ I` and `ESC [ O`.
proof fn lemma_tab_and_focus(cfg: Reading, rest: Seq<u8>)
    requires
        !cfg.expired,
    ensures
        parsed(cfg, seq![ESC, 0x5bu8, 0x5au8] + rest) == Parsed::Event(
            EventView::KeyPress(
                plain_key(KeyCode::Tab, KeyModifiers { shift: true, ..KeyModifiers::empty() }),
            ),
            3,
        ),
        parsed(cfg, seq![ESC, 0x5bu8, 0x49u8] + rest) == Parsed::Event(EventView::FocusIn, 3),
        parsed(cfg, seq![ESC, 0x5bu8, 0x4fu8] + rest) == Parsed::Event(EventView::FocusOut, 3),
{
    let none = Seq::<nat>::empty();
    lemma_list(none);
    let shift = KeyModifiers { shift: true, ..KeyModifiers::empty() };
    let tab = EventView::KeyPress(plain_key(KeyCode::Tab, shift));
    assert(recognized(parts(None, list(none), 0x5a), cfg.flags) == Some(tab));
    lemma_report(cfg, None, none, 0x5a, tab, rest);
    assert(csi(None, list(none), 0x5a) =~= seq![ESC, 0x5bu8, 0x5au8]);
    lemma_report(cfg, None, none, 0x49, EventView::FocusIn, rest);
    assert(csi(None, list(none), 0x49) =~= seq![ESC, 0x5bu8, 0x49u8]);
    lemma_report(cfg, None, none, 0x4f, EventView::FocusOut, rest);
    assert(csi(None, list(none), 0x4f) =~= seq![ESC, 0x5bu8, 0x4fu8]);
}

/// `ESC [ 200 ~` and `ESC [ 201 ~`.
proof fn lemma_paste_bounds(cfg: Reading, rest: Seq<u8>)
    requires
        !cfg.expired,
    ensures
        parsed(cfg, csi(None, digits(200), 0x7e) + rest) == Parsed::Event(
            EventView::PasteStart,
            csi(None, digits(200), 0x7e).len() as int,
        ),
        parsed(cfg, csi(None, digits(201), 0x7e) + rest) == Parsed::Event(
            EventView::PasteEnd,
            csi(None, digits(201), 0x7e).len() as int,
        ),
{
    let begin = seq![200nat];
    let end = seq![201nat];
    lemma_list(begin);
    lemma_list(end);
    assert(list(begin) == digits(200));
    assert(list(end) == digits(201));
    assert(params_of(list(begin))[0][0] == Some(200u32));
    assert(params_of(list(end))[0][0] == Some(201u32));
    assert(recognized(parts(None, list(begin), 0x7e), cfg.flags) == Some(EventView::PasteStart));
    assert(recognized(parts(None, list(end), 0x7e), cfg.flags) == Some(EventView::PasteEnd));
    lemma_report(cfg, None, begin, 0x7e, EventView::PasteStart, rest);
    lemma_report(cfg, None, end, 0x7e, EventView::PasteEnd, rest);
}

/// The byte of a key after `ESC O`.
pub open spec fn application_byte(code: KeyCode) -> Option<u8> {
    match code {
        KeyCode::F(3) => Some(0x52u8),
        KeyCode::Tab => Some(0x49u8),
        KeyCode::KpEnter => Some(0x4du8),
        KeyCode::KpEqual => Some(0x58u8),
        KeyCode::KpMultiply => Some(0x6au8),
        KeyCode::KpAdd => Some(0x6bu8),
        KeyCode::KpSeparator => Some(0x6cu8),
        KeyCode::KpSubtract => Some(0x6du8),
        KeyCode::KpDecimal => Some(0x6eu8),
        KeyCode::KpDivide => Some(0x6fu8),
        KeyCode::KpDigit(n) => if n <= 9 {
            Some((0x70 + n) as u8)
        } else {
            None
        },
        _ => cursor_final(code),
    }
}

/// A key after `ESC O` is that key, and a number before it gives its modifiers.
pub proof fn law_application_keys_round_trip(
    cfg: Reading,
    code: KeyCode,
    k: KeyModifiers,
    rest: Seq<u8>,
)
    requires
        !cfg.expired,
        application_byte(code) is Some,
        !k.scroll_lock,
    ensures
        parsed(cfg, seq![ESC, 0x4fu8, application_byte(code)->0] + rest) == Parsed::Event(
            EventView::KeyPress(plain_key(code, KeyModifiers::empty())),
            3,
        ),
        ({
            let s = seq![ESC, 0x4fu8] + digits(modifier_parameter(k)) + seq![
                application_byte(code)->0,
            ];
            parsed(cfg, s + rest) == Parsed::Event(
                EventView::KeyPress(plain_key(code, k)),
                s.len() as int,
            )
        }),
{
    lemma_bare_application_key(cfg, code, rest);
    let b = application_byte(code)->0;
    let d = digits(modifier_parameter(k));
    let s = seq![ESC, 0x4fu8] + d + seq![b];
    law_modifiers_round_trip(k);
    lemma_digit_bytes(modifier_parameter(k));
    lemma_decimal_of_digits(modifier_parameter(k));
    lemma_application_key(cfg, d, b, rest);
    lemma_application_byte(code);
    assert(field_value(d) == Some(modifier_parameter(k) as u32));
    assert(ss3_modifiers(d, b) == k);
}

/// The byte of a key names that key.
proof fn lemma_application_byte(code: KeyCode)
    requires
        application_byte(code) is Some,
    ensures
        ss3_key(application_byte(code)->0) == Some(code),
        urxvt_arrow(application_byte(code)->0) is None,
        0x41 <= application_byte(code)->0 <= 0x7e,
        !(code is Char) && !(code is Space),
{
}

/// A key after `ESC O` and digits.
proof fn lemma_application_key(cfg: Reading, d: Seq<u8>, b: u8, rest: Seq<u8>)
    requires
        !cfg.expired,
        forall|i: int| 0 <= i < d.len() ==> 0x30 <= #[trigger] d[i] <= 0x39,
        0x41 <= b <= 0x7e,
        ss3_key(b) is Some,
    ensures
        ({
            let s = seq![ESC, 0x4fu8] + d + seq![b];
            parsed(cfg, s + rest) == Parsed::Event(
                EventView::KeyPress(key_of(ss3_key(b)->0, ss3_modifiers(d, b))),
                s.len() as int,
            )
        }),
{
    let s = seq![ESC, 0x4fu8] + d + seq![b];
    assert forall|j: int| 2 <= j < s.len() - 1 implies is_digit(#[trigger] s[j]) by {
        assert(s[j] == d[j - 2]);
    }
    assert(s[s.len() - 1] == b);
    lemma_first_from_is(s, 2, s.len() - 1, non_digit());
    assert(s.subrange(2, s.len() - 1) =~= d);
    assert(parsed(cfg, s) == ss3_parsed(s)) by {
        reveal(parsed);
    }
    lemma_parsed_extend(cfg, s, rest);
}

/// A key after `ESC O` by itself.
proof fn lemma_bare_application_key(cfg: Reading, code: KeyCode, rest: Seq<u8>)
    requires
        !cfg.expired,
        application_byte(code) is Some,
    ensures
        parsed(cfg, seq![ESC, 0x4fu8, application_byte(code)->0] + rest) == Parsed::Event(
            EventView::KeyPress(plain_key(code, KeyModifiers::empty())),
            3,
        ),
{
    let b = application_byte(code)->0;
    let none = Seq::<u8>::empty();
    lemma_application_byte(code);
    lemma_application_key(cfg, none, b, rest);
    assert(seq![ESC, 0x4fu8] + none + seq![b] =~= seq![ESC, 0x4fu8, b]);
    assert(xterm_modifiers(1) == KeyModifiers::empty());
    assert(ss3_modifiers(none, b) == KeyModifiers::empty());
}

/// A control byte is Control and the letter that many places into the alphabet, unless it is
/// Tab, Enter or Line Feed.
pub proof fn law_control_bytes_are_letters(cfg: Reading, b: u8, rest: Seq<u8>)
    requires
        1 <= b <= 26,
        b != 0x09,
        b != 0x0a,
        b != 0x0d,
    ensures
        parsed(cfg, seq![b] + rest) == Parsed::Event(
            EventView::KeyPress(
                key_of(
                    KeyCode::Char((b + 0x60) as char),
                    KeyModifiers { ctrl: true, ..KeyModifiers::empty() },
                ),
            ),
            1,
        ),
{
    reveal(parsed);
    let s = seq![b] + rest;
    assert(s[0] == b);
}

/// `ESC` before a byte that is a key and begins no sequence adds Alt to that key.
pub proof fn law_escape_adds_alt(cfg: Reading, b: u8, rest: Seq<u8>)
    requires
        b < 0x80,
        b != ESC,
        !introduces(b),
    ensures
        ({
            let plain = parsed(cfg, seq![b] + rest);
            let k = plain->Event_0->KeyPress_0;
            &&& plain is Event && plain->Event_0 is KeyPress && plain->Event_1 == 1
            &&& parsed(cfg, seq![ESC, b] + rest) == Parsed::Event(
                EventView::KeyPress(
                    KeyView {
                        modifiers: KeyModifiers { alt: true, ..k.modifiers },
                        text: None,
                        ..k
                    },
                ),
                2,
            )
        }),
{
    reveal_with_fuel(parsed, 3);
    let inner = seq![b] + rest;
    let s = seq![ESC, b] + rest;
    assert(s.subrange(1, s.len() as int) =~= inner);
    assert(inner[0] == b);
    assert(s[0] == ESC && s[1] == b);
}

/// The code points of a text.
pub open spec fn code_points(text: Seq<char>) -> Seq<nat> {
    Seq::new(text.len(), |i: int| text[i] as nat)
}

/// A character is the character of its code point.
proof fn lemma_code_point(c: char)
    ensures
        c as nat <= 0x10_ffff,
        c as u32 == c as nat,
        scalar(c as u32 as int) == Some(c),
{
}

/// The code points of a text spell it.
proof fn lemma_spelled(values: Seq<Option<u32>>, text: Seq<char>)
    requires
        values.len() == text.len(),
        forall|i: int| 0 <= i < text.len() ==> #[trigger] values[i] == Some(text[i] as u32),
    ensures
        spelled(values) == text,
    decreases text.len(),
{
    if text.len() > 0 {
        assert forall|i: int| 0 <= i < text.len() - 1 implies #[trigger] values.drop_last()[i]
            == Some(text.drop_last()[i] as u32) by {
            assert(values[i] == Some(text[i] as u32));
        }
        assert(values[text.len() - 1] == Some(text[text.len() - 1] as u32));
        lemma_spelled(values.drop_last(), text.drop_last());
        lemma_code_point(text.last());
        assert(text.drop_last().push(text.last()) =~= text);
    } else {
        assert(spelled(values) =~= text);
    }
}

/// The parameter bytes of a key with its alternates, its modifiers and phase, and its text.
pub open spec fn full_key(
    n: nat,
    shifted: char,
    base: char,
    k: KeyModifiers,
    phase: Phase,
    text: Seq<char>,
) -> Seq<u8> {
    sub_list(seq![n, shifted as nat, base as nat]) + seq![0x3bu8] + sub_list(
        seq![modifier_parameter(k), phase_number(phase)],
    ) + seq![0x3bu8] + sub_list(code_points(text))
}

/// Those bytes are read as those parts.
proof fn lemma_full_key(
    n: nat,
    shifted: char,
    base: char,
    k: KeyModifiers,
    phase: Phase,
    text: Seq<char>,
)
    requires
        n <= u32::MAX,
        text.len() > 0,
    ensures
        ({
            let raw = full_key(n, shifted, base, k, phase, text);
            let p = params_of(raw);
            &&& p.len() == 3
            &&& p[0] == seq![Some(n as u32), Some(shifted as u32), Some(base as u32)]
            &&& p[1] == seq![
                Some(modifier_parameter(k) as u32),
                Some(phase_number(phase) as u32),
            ]
            &&& p[2].len() == text.len()
            &&& forall|i: int|
                0 <= i < text.len() ==> #[trigger] p[2][i] == Some(text[i] as u32)
            &&& raw.len() > 0
            &&& forall|i: int| 0 <= i < raw.len() ==> 0x30 <= #[trigger] raw[i] <= 0x3b
        }),
{
    let a = sub_list(seq![n, shifted as nat, base as nat]);
    let b = sub_list(seq![modifier_parameter(k), phase_number(phase)]);
    let c = sub_list(code_points(text));
    let ab = a + seq![0x3bu8] + b;
    let raw = full_key(n, shifted, base, k, phase, text);
    lemma_mask(k, modifier_parameter(k) - 1);
    lemma_sub_list(seq![n, shifted as nat, base as nat]);
    lemma_sub_list(seq![modifier_parameter(k), phase_number(phase)]);
    assert forall|i: int| 0 <= i < text.len() implies #[trigger] code_points(text)[i] <= u32::MAX
        && code_points(text)[i] == text[i] as u32 by {
        lemma_code_point(text[i]);
    }
    lemma_code_point(shifted);
    lemma_code_point(base);
    lemma_sub_list(code_points(text));
    lemma_split_two(a, b, 0x3b);
    lemma_split_append(ab, c, 0x3b);
    let fields = split(raw, 0x3b);
    assert(fields =~= seq![a, b, c]);
    assert(sub_params(a) =~= seq![Some(n as u32), Some(shifted as u32), Some(base as u32)]);
    assert(sub_params(b) =~= seq![
        Some(modifier_parameter(k) as u32),
        Some(phase_number(phase) as u32),
    ]);
    let p = params_of(raw);
    assert forall|i: int| 0 <= i < text.len() implies #[trigger] p[2][i] == Some(
        text[i] as u32,
    ) by {
        assert(p[2] == sub_params(c));
        assert(code_points(text)[i] == text[i] as u32);
    }
    assert forall|i: int| 0 <= i < raw.len() implies 0x30 <= #[trigger] raw[i] <= 0x3b by {
        if i < a.len() {
            assert(raw[i] == a[i]);
        } else if a.len() < i < ab.len() {
            assert(raw[i] == b[i - a.len() - 1]);
        } else if i > ab.len() {
            assert(raw[i] == c[i - ab.len() - 1]);
        }
    }
}

/// A key of the Kitty protocol carries the character it has with Shift, the one it has on the
/// base layout, and the text it typed.
pub proof fn law_kitty_texts_round_trip(
    cfg: Reading,
    code: KeyCode,
    shifted: char,
    base: char,
    k: KeyModifiers,
    phase: Phase,
    text: Seq<char>,
    rest: Seq<u8>,
)
    requires
        !cfg.expired,
        has_kitty_number(code),
        !k.scroll_lock,
        text.len() > 0,
    ensures
        ({
            let s = csi(None, full_key(kitty_number(code), shifted, base, k, phase, text), 0x75);
            parsed(cfg, s + rest) == Parsed::Event(
                key_phase_event(
                    KeyView {
                        code,
                        modifiers: k,
                        text: Some(text),
                        shifted_key: Some(shifted),
                        base_key: Some(base),
                    },
                    phase,
                ),
                s.len() as int,
            )
        }),
{
    let n = kitty_number(code);
    let raw = full_key(n, shifted, base, k, phase, text);
    law_modifiers_round_trip(k);
    if code.functional_number() >= 57344 {
        law_functional_keys_round_trip(code);
    }
    lemma_full_key(n, shifted, base, k, phase, text);
    let p = params_of(raw);
    lemma_spelled(p[2], text);
    assert(kitty_text(p) == Some(text));
    assert(csi_modifiers(p) == k);
    assert(recognized(parts(None, raw, 0x75), cfg.flags) == kitty_event(p));
    assert(kitty_event(p) == Some(
        key_phase_event(
            KeyView {
                code,
                modifiers: k,
                text: Some(text),
                shifted_key: Some(shifted),
                base_key: Some(base),
            },
            phase,
        ),
    ));
    lemma_csi(cfg, None, raw, 0x75);
    lemma_parsed_extend(cfg, csi(None, raw, 0x75), rest);
}

/// The bytes that are a key of their own and a letter with Control are what the flags prefer.
/// Line Feed is Enter, and the bytes after `ESC` are Control and a sign.
pub proof fn law_ambiguous_bytes_follow_flags(cfg: Reading, b: u8, rest: Seq<u8>)
    requires
        0x1c <= b <= 0x1f,
    ensures
        ({
            let ctrl = KeyModifiers { ctrl: true, ..KeyModifiers::empty() };
            let none = KeyModifiers::empty();
            let press = |code: KeyCode, k: KeyModifiers|
                Parsed::Event(EventView::KeyPress(key_of(code, k)), 1);
            let f = cfg.flags;
            &&& parsed(cfg, seq![0x00u8] + rest) == (if f.ctrl_at {
                press(KeyCode::Char('@'), ctrl)
            } else {
                press(KeyCode::Space, ctrl)
            })
            &&& parsed(cfg, seq![0x09u8] + rest) == (if f.ctrl_i {
                press(KeyCode::Char('i'), ctrl)
            } else {
                press(KeyCode::Tab, none)
            })
            &&& parsed(cfg, seq![0x0du8] + rest) == (if f.ctrl_m {
                press(KeyCode::Char('m'), ctrl)
            } else {
                press(KeyCode::Enter, none)
            })
            &&& parsed(cfg, seq![0x0au8] + rest) == press(KeyCode::Enter, none)
            &&& parsed(cfg, seq![0x7fu8] + rest) == (if f.backspace_is_delete {
                press(KeyCode::Delete, none)
            } else {
                press(KeyCode::Backspace, none)
            })
            &&& parsed(cfg, seq![b] + rest) == press(KeyCode::Char((b + 0x40) as char), ctrl)
        }),
{
    reveal(parsed);
    assert((seq![0x00u8] + rest)[0] == 0x00);
    assert((seq![0x09u8] + rest)[0] == 0x09);
    assert((seq![0x0du8] + rest)[0] == 0x0d);
    assert((seq![0x0au8] + rest)[0] == 0x0a);
    assert((seq![0x7fu8] + rest)[0] == 0x7f);
    assert((seq![b] + rest)[0] == b);
}

} // verus!
