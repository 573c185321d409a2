//! Laws that tie the encoders of [`ansi`](crate::ansi) to the decoder, and the
//! encodings of one key to each other.

use crate::ansi::mode::{report_bytes, Mode, ModeSetting};
use crate::ansi::status::{cpr_bytes, light_dark_bytes, one_based, visibility_bytes};
use crate::bytes::{
    digits, is_digit, lemma_decimal_of_digits, lemma_first_from_is, lemma_split_append,
    lemma_split_one, lemma_split_two, ESC,
};
use crate::event::decode::csi::{
    csi_end, csi_parsed, dispatched, intermediates, is_private, recognized, split_csi_view, CsiView,
    Reading,
};
use crate::event::decode::ground::{lemma_parsed_extend, parsed};
use crate::event::decode::keys::{other_key, xterm_modifiers};
use crate::event::decode::params::{params_of, sub_params};
use crate::event::decode::result::Parsed;
use crate::event::key::{functional_key, key_of, scalar, KeyCode, KeyModifiers, KeyView};
use crate::event::{ColorScheme, EventView, Visibility};
use crate::layout::Position;
use vstd::prelude::*;
use vstd::string::*;

verus! {

/// The parameters of `n;m`.
proof fn lemma_two_params(n: nat, m: nat)
    requires
        n <= u32::MAX,
        m <= u32::MAX,
    ensures
        params_of(digits(n) + seq![0x3bu8] + digits(m)) == seq![
            seq![Some(n as u32)],
            seq![Some(m as u32)],
        ],
{
    lemma_decimal_of_digits(n);
    lemma_decimal_of_digits(m);
    let raw = digits(n) + seq![0x3bu8] + digits(m);
    lemma_split_two(digits(n), digits(m), 0x3b);
    lemma_split_one(digits(n), 0x3a);
    lemma_split_one(digits(m), 0x3a);
    assert(sub_params(digits(n)) =~= seq![Some(n as u32)]);
    assert(sub_params(digits(m)) =~= seq![Some(m as u32)]);
    assert(params_of(raw) =~= seq![seq![Some(n as u32)], seq![Some(m as u32)]]);
}

/// The bytes `n;m` of a parameter list.
pub open spec fn pair(n: nat, m: nat) -> Seq<u8> {
    digits(n) + seq![0x3bu8] + digits(m)
}

/// Every byte of `n;m` is a digit or the separator.
proof fn lemma_pair_bytes(n: nat, m: nat)
    ensures
        forall|i: int| 0 <= i < pair(n, m).len() ==> 0x30 <= #[trigger] pair(n, m)[i] <= 0x3b,
        pair(n, m).len() >= 3,
{
    lemma_decimal_of_digits(n);
    lemma_decimal_of_digits(m);
    assert forall|i: int| 0 <= i < pair(n, m).len() implies 0x30 <= #[trigger] pair(n, m)[i]
        <= 0x3b by {
        if i < digits(n).len() {
            assert(is_digit(digits(n)[i]));
        } else if i > digits(n).len() {
            assert(is_digit(digits(m)[i - digits(n).len() - 1]));
        }
    }
}

/// `ESC [` introduces a CSI sequence.
proof fn lemma_parsed_csi(cfg: Reading, s: Seq<u8>)
    requires
        s.len() >= 2,
        s[0] == ESC,
        s[1] == 0x5b,
    ensures
        parsed(cfg, s) == csi_parsed(cfg, s),
{
    reveal(parsed);
}

/// The outcome of a complete sequence of `n` bytes with the parts `c` of `body`: what it is
/// recognized as, or unknown.
pub open spec fn outcome(cfg: Reading, c: CsiView, body: Seq<u8>, n: int) -> Parsed {
    match recognized(c, cfg.flags) {
        Some(e) => Parsed::Event(e, n),
        None => Parsed::Event(EventView::UnknownCsi(body), n),
    }
}

/// Parameters and intermediates, none of which is a suffix, end where the first other byte
/// is.
proof fn lemma_csi_end_is(s: Seq<u8>, i: int, k: int, suffix: bool)
    requires
        0 <= i <= k < s.len(),
        forall|j: int| i <= j < k ==> 0x20 <= #[trigger] s[j] <= 0x3f,
        suffix ==> forall|j: int| i <= j < k ==> #[trigger] s[j] != 0x24,
        s[k] > 0x3f,
    ensures
        csi_end(s, i, suffix) == k,
    decreases k - i,
{
    if i < k {
        lemma_csi_end_is(s, i + 1, k, suffix && s[i] != 0x3b);
    }
}

/// Parameters with a separator at `k` take the suffix away, so that `$` may follow.
proof fn lemma_csi_end_several(s: Seq<u8>, i: int, k: int)
    requires
        0 <= i <= k < s.len(),
        forall|j: int| i <= j < k ==> 0x30 <= #[trigger] s[j] <= 0x39,
        s[k] == 0x3b,
    ensures
        csi_end(s, i, true) == csi_end(s, k + 1, false),
    decreases k - i,
{
    if i < k {
        lemma_csi_end_several(s, i + 1, k);
    }
}

/// `ESC [`, a parameter list and a final byte are one sequence.
proof fn lemma_plain_body(cfg: Reading, body: Seq<u8>, f: u8)
    requires
        body.len() > 0,
        is_digit(body[0]),
        forall|i: int| 0 <= i < body.len() ==> 0x30 <= #[trigger] body[i] <= 0x3b,
        0x40 <= f <= 0x7e,
        f != 0x5f,
    ensures
        ({
            let s = seq![ESC, 0x5bu8] + body + seq![f];
            let c = CsiView {
                private: None,
                params_raw: body,
                intermediates: Seq::empty(),
                final_byte: f,
            };
            parsed(cfg, s) == outcome(cfg, c, body + seq![f], s.len() as int)
        }),
{
    let s = seq![ESC, 0x5bu8] + body + seq![f];
    lemma_parsed_csi(cfg, s);
    assert(s[2] == body[0]);
    assert forall|j: int| 2 <= j < s.len() - 1 implies s[j] == body[j - 2] by {}
    lemma_csi_end_is(s, 2, s.len() - 1, true);
    let seq = s.subrange(2, s.len() as int);
    assert(seq =~= body + seq![f]);
    assert(seq.drop_last() =~= body);
    lemma_first_from_is(body, 0, body.len() as int, intermediates());
    assert(body.subrange(0, body.len() as int) =~= body);
    let c = split_csi_view(seq);
    assert(c =~= (CsiView {
        private: None,
        params_raw: body,
        intermediates: Seq::empty(),
        final_byte: f,
    }));
}

/// `ESC [ n ; m f` is one sequence with those two parameters.
proof fn lemma_plain_sequence(cfg: Reading, n: nat, m: nat, f: u8)
    requires
        0x40 <= f <= 0x7e,
        f != 0x5f,
    ensures
        ({
            let s = seq![ESC, 0x5bu8] + pair(n, m) + seq![f];
            let c = CsiView {
                private: None,
                params_raw: pair(n, m),
                intermediates: Seq::empty(),
                final_byte: f,
            };
            parsed(cfg, s) == outcome(cfg, c, pair(n, m) + seq![f], s.len() as int)
        }),
{
    lemma_pair_bytes(n, m);
    lemma_decimal_of_digits(n);
    assert(is_digit(digits(n)[0]));
    assert(pair(n, m)[0] == digits(n)[0]);
    lemma_plain_body(cfg, pair(n, m), f);
}

/// The bytes after the parameters: the final byte, and `$` before it where there
/// is one.
pub open spec fn ending(dollar: bool, f: u8) -> Seq<u8> {
    if dollar {
        seq![0x24u8, f]
    } else {
        seq![f]
    }
}

/// The private prefix `?`, where there is one.
pub open spec fn marker(private: bool) -> Seq<u8> {
    if private {
        seq![0x3fu8]
    } else {
        Seq::empty()
    }
}

/// The parts of `n ; m f`, with `?` before it and `$` before its final byte where they are
/// there.
pub open spec fn pair_view(private: bool, n: nat, m: nat, dollar: bool, f: u8) -> CsiView {
    CsiView {
        private: if private {
            Some(0x3fu8)
        } else {
            None
        },
        params_raw: pair(n, m),
        intermediates: if dollar {
            seq![0x24u8]
        } else {
            Seq::empty()
        },
        final_byte: f,
    }
}

/// The body `n ; m f`, with `?` before it and `$` before its final byte where they are
/// there.
pub open spec fn pair_body(private: bool, n: nat, m: nat, dollar: bool, f: u8) -> Seq<u8> {
    marker(private) + pair(n, m) + ending(dollar, f)
}

/// Such a body splits into its parts.
proof fn lemma_pair_parts(private: bool, n: nat, m: nat, dollar: bool, f: u8)
    ensures
        split_csi_view(pair_body(private, n, m, dollar, f)) == pair_view(
            private,
            n,
            m,
            dollar,
            f,
        ),
{
    let body = pair(n, m);
    let whole = pair_body(private, n, m, dollar, f);
    lemma_pair_bytes(n, m);
    lemma_decimal_of_digits(n);
    assert(is_digit(digits(n)[0]));
    assert(body[0] == digits(n)[0]);
    let inner = whole.drop_last();
    let rest = if private {
        inner.subrange(1, inner.len() as int)
    } else {
        inner
    };
    if private {
        assert(inner[0] == 0x3f);
    } else {
        assert(inner[0] == body[0]);
    }
    let tail = pair_view(private, n, m, dollar, f).intermediates;
    assert(rest =~= body + tail);
    lemma_first_from_is(rest, 0, body.len() as int, intermediates());
    assert(rest.subrange(0, body.len() as int) =~= body);
    assert(rest.subrange(body.len() as int, rest.len() as int) =~= tail);
    assert(whole.last() == f);
    assert(split_csi_view(whole) =~= pair_view(private, n, m, dollar, f));
}

/// The final byte of such a sequence is its last.
proof fn lemma_pair_end(private: bool, n: nat, m: nat, dollar: bool, f: u8)
    requires
        0x40 <= f <= 0x7e,
    ensures
        ({
            let s = seq![ESC, 0x5bu8] + pair_body(private, n, m, dollar, f);
            let first: int = if private {
                3
            } else {
                2
            };
            csi_end(s, first, !private) == s.len() - 1
        }),
{
    let body = pair(n, m);
    let s = seq![ESC, 0x5bu8] + pair_body(private, n, m, dollar, f);
    let first: int = if private {
        3
    } else {
        2
    };
    lemma_pair_bytes(n, m);
    lemma_decimal_of_digits(n);
    assert forall|j: int| first <= j < s.len() - 1 implies 0x20 <= #[trigger] s[j] <= 0x3f by {
        if j < first + body.len() {
            assert(s[j] == body[j - first]);
        }
    }
    assert(s[s.len() - 1] == f);
    if private {
        lemma_csi_end_is(s, 3, s.len() - 1, false);
    } else {
        let k = digits(n).len() as int;
        assert forall|j: int| 2 <= j < 2 + k implies 0x30 <= #[trigger] s[j] <= 0x39 by {
            assert(is_digit(digits(n)[j - 2]));
            assert(s[j] == body[j - 2]);
        }
        assert(s[2 + k] == body[k]);
        lemma_csi_end_several(s, 2, 2 + k);
        lemma_csi_end_is(s, 3 + k, s.len() - 1, false);
    }
}

/// A complete sequence with parameters, but not with six, is recognized or unknown.
proof fn lemma_dispatched(cfg: Reading, s: Seq<u8>, c: CsiView)
    requires
        s.len() > 2,
        c == split_csi_view(s.subrange(2, s.len() as int)),
        c.params_raw.len() > 0,
        c.params().len() != 6,
    ensures
        dispatched(cfg, s, 2, s.len() as int) == outcome(
            cfg,
            c,
            s.subrange(2, s.len() as int),
            s.len() as int,
        ),
{
}

/// A sequence whose first final byte is its last is complete.
proof fn lemma_complete(cfg: Reading, s: Seq<u8>, private: bool)
    requires
        s.len() > 3,
        s[0] == ESC,
        s[1] == 0x5b,
        private == is_private(s[2]),
        0x40 <= s.last() <= 0x7e,
        csi_end(
            s,
            if private {
                3
            } else {
                2
            },
            !private,
        ) == s.len() - 1,
    ensures
        parsed(cfg, s) == dispatched(cfg, s, 2, s.len() as int),
{
    lemma_parsed_csi(cfg, s);
}

/// `ESC [ n ; m f`, with `?` and `$` where they are there, is one sequence with those two
/// parameters.
proof fn lemma_pair_sequence(
    cfg: Reading,
    private: bool,
    n: nat,
    m: nat,
    dollar: bool,
    f: u8,
)
    requires
        n <= u32::MAX,
        m <= u32::MAX,
        0x40 <= f <= 0x7e,
    ensures
        ({
            let body = pair_body(private, n, m, dollar, f);
            let s = seq![ESC, 0x5bu8] + body;
            parsed(cfg, s) == outcome(
                cfg,
                pair_view(private, n, m, dollar, f),
                body,
                s.len() as int,
            )
        }),
{
    let body = pair_body(private, n, m, dollar, f);
    let s = seq![ESC, 0x5bu8] + body;
    lemma_pair_bytes(n, m);
    lemma_decimal_of_digits(n);
    assert(is_digit(digits(n)[0]));
    lemma_pair_end(private, n, m, dollar, f);
    lemma_pair_parts(private, n, m, dollar, f);
    lemma_two_params(n, m);
    assert(s[2] == body[0]);
    assert(s.last() == f);
    assert(s.subrange(2, s.len() as int) =~= body);
    lemma_complete(cfg, s, private);
    lemma_dispatched(cfg, s, pair_view(private, n, m, dollar, f));
}

/// The bytes of the literals that reports are made of.
proof fn lemma_literals()
    ensures
        "\x1b[".spec_bytes() == seq![ESC, 0x5bu8],
        "\x1b[?".spec_bytes() == seq![ESC, 0x5bu8, 0x3fu8],
        ";".spec_bytes() == seq![0x3bu8],
        "R".spec_bytes() == seq![0x52u8],
        "$y".spec_bytes() == seq![0x24u8, 0x79u8],
{
    broadcast use is_ascii_spec_bytes;

    reveal_strlit("\x1b[");
    reveal_strlit("\x1b[?");
    reveal_strlit(";");
    reveal_strlit("R");
    reveal_strlit("$y");
    assert("\x1b[".is_ascii());
    assert("\x1b[?".is_ascii());
    assert(";".is_ascii());
    assert("R".is_ascii());
    assert("$y".is_ascii());
    assert("\x1b[".spec_bytes() =~= seq![ESC, 0x5bu8]);
    assert("\x1b[?".spec_bytes() =~= seq![ESC, 0x5bu8, 0x3fu8]);
    assert(";".spec_bytes() =~= seq![0x3bu8]);
    assert("R".spec_bytes() =~= seq![0x52u8]);
    assert("$y".spec_bytes() =~= seq![0x24u8, 0x79u8]);
}

/// A cursor position report decodes to the position it was written for, zero-based.
/// On the first line a column up to sixteen also reads as F3 with modifiers, and
/// both readings are given.
pub proof fn law_cursor_report_round_trip(cfg: Reading, line: u16, column: u16, rest: Seq<u8>)
    requires
        !cfg.expired,
    ensures
        ({
            let bytes = cpr_bytes(line, column);
            let position = EventView::CursorPosition(
                Position {
                    x: (one_based(column) - 1) as u16,
                    y: (one_based(line) - 1) as u16,
                },
            );
            let event = if one_based(line) == 1 && one_based(column) <= 16 {
                let f3 = key_of(KeyCode::F(3), xterm_modifiers(one_based(column) as u16));
                EventView::Multi(seq![EventView::KeyPress(f3), position])
            } else {
                position
            };
            parsed(cfg, bytes + rest) == Parsed::Event(event, bytes.len() as int)
        }),
{
    lemma_literals();
    let l = one_based(line);
    let c = one_based(column);
    let bytes = cpr_bytes(line, column);
    assert(bytes =~= seq![ESC, 0x5bu8] + pair(l, c) + seq![0x52u8]);
    lemma_plain_sequence(cfg, l, c, 0x52);
    lemma_two_params(l, c);
    let p = params_of(pair(l, c));
    assert(p[0][0] == Some(l as u32));
    assert(p[1][0] == Some(c as u32));
    lemma_parsed_extend(cfg, bytes, rest);
}

/// A mode report decodes to the mode and the setting it was written for, DEC or ANSI.
pub proof fn law_mode_report_round_trip(
    cfg: Reading,
    mode: Mode,
    setting: ModeSetting,
    rest: Seq<u8>,
)
    requires
        !cfg.expired,
    ensures
        ({
            let bytes = report_bytes(mode, setting);
            parsed(cfg, bytes + rest) == Parsed::Event(
                EventView::ModeReport { mode, setting },
                bytes.len() as int,
            )
        }),
{
    lemma_literals();
    let (private, number) = match mode {
        Mode::Dec(number) => (true, number),
        Mode::Ansi(number) => (false, number),
    };
    let n = number as nat;
    let m = setting.spec_value() as nat;
    let bytes = report_bytes(mode, setting);
    assert(bytes =~= seq![ESC, 0x5bu8] + pair_body(private, n, m, true, 0x79));
    lemma_pair_sequence(cfg, private, n, m, true, 0x79);
    lemma_two_params(n, m);
    let p = params_of(pair(n, m));
    assert(p[0][0] == Some(n as u32));
    assert(p[1][0] == Some(m as u32));
    lemma_parsed_extend(cfg, bytes, rest);
}

/// The bytes of a status report, `ESC [ ? n ; v n`.
proof fn lemma_status_bytes(n: nat, v: nat)
    requires
        n == 997 || n == 999,
        v == 1 || v == 2,
    ensures
        pair(n, v) == seq![0x39u8, 0x39u8, (0x30 + n % 10) as u8, 0x3bu8, (0x30 + v) as u8],
{
    reveal_with_fuel(digits, 4);
    assert(digits(9) =~= seq![0x39u8]);
    assert(digits(99) =~= seq![0x39u8, 0x39u8]);
    assert(n / 10 == 99);
    assert(digits(n) =~= seq![0x39u8, 0x39u8, (0x30 + n % 10) as u8]);
    assert(pair(n, v) =~= seq![0x39u8, 0x39u8, (0x30 + n % 10) as u8, 0x3bu8, (0x30 + v) as u8]);
}

/// A visibility report decodes to the visibility it was written for.
pub proof fn law_visibility_report_round_trip(cfg: Reading, visible: bool, rest: Seq<u8>)
    requires
        !cfg.expired,
    ensures
        parsed(cfg, visibility_bytes(visible) + rest) == Parsed::Event(
            EventView::Visibility(
                if visible {
                    Visibility::Visible
                } else {
                    Visibility::Hidden
                },
            ),
            9,
        ),
{
    broadcast use is_ascii_spec_bytes;

    reveal_strlit("\x1b[?999;1n");
    reveal_strlit("\x1b[?999;2n");
    assert("\x1b[?999;1n".is_ascii());
    assert("\x1b[?999;2n".is_ascii());
    let v: nat = if visible {
        1
    } else {
        2
    };
    let bytes = visibility_bytes(visible);
    lemma_status_bytes(999, v);
    assert(bytes =~= seq![ESC, 0x5bu8] + pair_body(true, 999, v, false, 0x6e));
    lemma_pair_sequence(cfg, true, 999, v, false, 0x6e);
    lemma_two_params(999, v);
    let p = params_of(pair(999, v));
    assert(p[0][0] == Some(999u32));
    assert(p[1][0] == Some(v as u32));
    lemma_parsed_extend(cfg, bytes, rest);
}

/// A light/dark report decodes to the color scheme it was written for.
pub proof fn law_light_dark_report_round_trip(cfg: Reading, dark: bool, rest: Seq<u8>)
    requires
        !cfg.expired,
    ensures
        parsed(cfg, light_dark_bytes(dark) + rest) == Parsed::Event(
            EventView::ColorScheme(
                if dark {
                    ColorScheme::Dark
                } else {
                    ColorScheme::Light
                },
            ),
            9,
        ),
{
    broadcast use is_ascii_spec_bytes;

    reveal_strlit("\x1b[?997;1n");
    reveal_strlit("\x1b[?997;2n");
    assert("\x1b[?997;1n".is_ascii());
    assert("\x1b[?997;2n".is_ascii());
    let v: nat = if dark {
        1
    } else {
        2
    };
    let bytes = light_dark_bytes(dark);
    lemma_status_bytes(997, v);
    assert(bytes =~= seq![ESC, 0x5bu8] + pair_body(true, 997, v, false, 0x6e));
    lemma_pair_sequence(cfg, true, 997, v, false, 0x6e);
    lemma_two_params(997, v);
    let p = params_of(pair(997, v));
    assert(p[0][0] == Some(997u32));
    assert(p[1][0] == Some(v as u32));
    lemma_parsed_extend(cfg, bytes, rest);
}

/// The sequence of a key in the Kitty protocol: `ESC [ n ; m u`.
pub open spec fn kitty_bytes(n: u32, m: u32) -> Seq<u8> {
    seq![ESC, 0x5bu8] + pair(n as nat, m as nat) + seq![0x75u8]
}

/// The sequence of a key with modifyOtherKeys: `ESC [ 27 ; m ; n ~`.
pub open spec fn other_key_bytes(n: u32, m: u32) -> Seq<u8> {
    seq![ESC, 0x5bu8] + triple(27, m as nat, n as nat) + seq![0x7eu8]
}

/// The bytes `k;n;m` of a parameter list.
pub open spec fn triple(k: nat, n: nat, m: nat) -> Seq<u8> {
    pair(k, n) + seq![0x3bu8] + digits(m)
}

/// The parameters of `k;n;m`.
proof fn lemma_three_params(k: nat, n: nat, m: nat)
    requires
        k <= u32::MAX,
        n <= u32::MAX,
        m <= u32::MAX,
    ensures
        params_of(triple(k, n, m)) == seq![
            seq![Some(k as u32)],
            seq![Some(n as u32)],
            seq![Some(m as u32)],
        ],
{
    lemma_decimal_of_digits(k);
    lemma_decimal_of_digits(n);
    lemma_decimal_of_digits(m);
    lemma_split_two(digits(k), digits(n), 0x3b);
    lemma_split_append(pair(k, n), digits(m), 0x3b);
    lemma_split_one(digits(k), 0x3a);
    lemma_split_one(digits(n), 0x3a);
    lemma_split_one(digits(m), 0x3a);
    assert(sub_params(digits(k)) =~= seq![Some(k as u32)]);
    assert(sub_params(digits(n)) =~= seq![Some(n as u32)]);
    assert(sub_params(digits(m)) =~= seq![Some(m as u32)]);
    assert(params_of(triple(k, n, m)) =~= seq![
        seq![Some(k as u32)],
        seq![Some(n as u32)],
        seq![Some(m as u32)],
    ]);
}

/// Every byte of `k;n;m` is a digit or the separator.
proof fn lemma_triple_bytes(k: nat, n: nat, m: nat)
    ensures
        forall|i: int|
            0 <= i < triple(k, n, m).len() ==> 0x30 <= #[trigger] triple(k, n, m)[i] <= 0x3b,
        triple(k, n, m).len() > 0,
        is_digit(triple(k, n, m)[0]),
{
    lemma_pair_bytes(k, n);
    lemma_decimal_of_digits(k);
    lemma_decimal_of_digits(m);
    assert(is_digit(digits(k)[0]));
    assert(triple(k, n, m)[0] == digits(k)[0]);
    assert forall|i: int| 0 <= i < triple(k, n, m).len() implies 0x30 <= #[trigger] triple(
        k,
        n,
        m,
    )[i] <= 0x3b by {
        let l = pair(k, n).len();
        if i < l {
            assert(triple(k, n, m)[i] == pair(k, n)[i]);
        } else if i > l {
            assert(is_digit(digits(m)[i - l - 1]));
        }
    }
}

/// The key that `ESC [ n ; m u` decodes to, and `ESC [ 27 ; m ; n ~` too.
pub open spec fn encoded_key(n: u32, m: u32) -> KeyView {
    key_of(other_key(n as int)->0, xterm_modifiers(m as u16))
}

/// A key press has one identity, whichever encoding carries it: `CSI n ; m u` and
/// `CSI 27 ; m ; n ~` decode to the same key, for every character that is not in the
/// functional-key range of the first.
pub proof fn law_key_encodings_agree(cfg: Reading, n: u32, m: u32, rest: Seq<u8>)
    requires
        !cfg.expired,
        functional_key(n as int) is None,
        scalar(n as int) is Some,
    ensures
        parsed(cfg, kitty_bytes(n, m) + rest) == Parsed::Event(
            EventView::KeyPress(encoded_key(n, m)),
            kitty_bytes(n, m).len() as int,
        ),
        parsed(cfg, other_key_bytes(n, m) + rest) == Parsed::Event(
            EventView::KeyPress(encoded_key(n, m)),
            other_key_bytes(n, m).len() as int,
        ),
{
    lemma_plain_sequence(cfg, n as nat, m as nat, 0x75);
    lemma_two_params(n as nat, m as nat);
    let k = params_of(pair(n as nat, m as nat));
    assert(k[0][0] == Some(n));
    assert(k[1][0] == Some(m));
    lemma_parsed_extend(cfg, kitty_bytes(n, m), rest);
    lemma_triple_bytes(27, m as nat, n as nat);
    lemma_plain_body(cfg, triple(27, m as nat, n as nat), 0x7e);
    lemma_three_params(27, m as nat, n as nat);
    let t = params_of(triple(27, m as nat, n as nat));
    assert(t[0][0] == Some(27u32));
    assert(t[1][0] == Some(m));
    assert(t[2][0] == Some(n));
    lemma_parsed_extend(cfg, other_key_bytes(n, m), rest);
}

/// A printable ASCII character by itself is the same key as its sequence without
/// modifiers.
pub proof fn law_bare_characters_agree(cfg: Reading, b: u8, rest: Seq<u8>)
    requires
        !cfg.expired,
        0x20 <= b < 0x7f,
    ensures
        parsed(cfg, seq![b] + rest) == Parsed::Event(
            EventView::KeyPress(encoded_key(b as u32, 1)),
            1,
        ),
        parsed(cfg, kitty_bytes(b as u32, 1) + rest) == Parsed::Event(
            EventView::KeyPress(encoded_key(b as u32, 1)),
            kitty_bytes(b as u32, 1).len() as int,
        ),
{
    law_key_encodings_agree(cfg, b as u32, 1, rest);
    let s = seq![b] + rest;
    assert(s[0] == b);
    assert(xterm_modifiers(1) == KeyModifiers::empty());
    reveal(parsed);
}

} // verus!
