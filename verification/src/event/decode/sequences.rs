//! Sequences as terminals write them, and what is read from them.

use crate::bytes::{
    digits, equals_byte, field_value, index_of, is_digit, lemma_decimal_of_digits, lemma_first_from_is, lemma_split_append,
    lemma_split_one, split, ESC,
};
use crate::event::decode::csi::{
    csi_end, csi_parsed, dispatched, intermediates, is_private, recognized, split_csi_view, CsiView,
    Reading,
};
use crate::event::decode::ground::{introduces, lemma_parsed_extend, parsed, string_kind};
use crate::event::decode::params::{params_of, sub_params};
use crate::event::decode::result::Parsed;
use crate::event::decode::strings::{
    after, before, body_end, occurs, string_event, string_parsed, terminator_at,
};
use crate::event::decode::win32::packet_parsed;
use crate::event::EventView;
use vstd::prelude::*;

verus! {

/// Decimal numbers joined by `;`.
pub open spec fn list(numbers: Seq<nat>) -> Seq<u8>
    decreases numbers.len(),
{
    if numbers.len() == 0 {
        Seq::empty()
    } else if numbers.len() == 1 {
        digits(numbers[0])
    } else {
        list(numbers.drop_last()) + seq![0x3bu8] + digits(numbers.last())
    }
}

/// One parameter per number, without sub-parameters.
pub open spec fn single_params(numbers: Seq<nat>) -> Seq<Seq<Option<u32>>> {
    Seq::new(numbers.len(), |i: int| seq![Some(numbers[i] as u32)])
}

/// The digits of a number are digits.
pub proof fn lemma_digit_bytes(n: nat)
    ensures
        digits(n).len() > 0,
        forall|i: int| 0 <= i < digits(n).len() ==> 0x30 <= #[trigger] digits(n)[i] <= 0x39,
{
    lemma_decimal_of_digits(n);
    assert forall|i: int| 0 <= i < digits(n).len() implies 0x30 <= #[trigger] digits(n)[i]
        <= 0x39 by {
        assert(is_digit(digits(n)[i]));
    }
}

/// A list of numbers holds digits and separators.
proof fn lemma_list_bytes(numbers: Seq<nat>)
    ensures
        numbers.len() > 0 ==> list(numbers).len() > 0,
        forall|i: int| 0 <= i < list(numbers).len() ==> 0x30 <= #[trigger] list(numbers)[i] <= 0x3b,
    decreases numbers.len(),
{
    if numbers.len() == 1 {
        lemma_digit_bytes(numbers[0]);
    } else if numbers.len() > 1 {
        lemma_list_bytes(numbers.drop_last());
        lemma_digit_bytes(numbers.last());
    }
}

/// The fields of a list are its numbers.
proof fn lemma_list_fields(numbers: Seq<nat>)
    requires
        numbers.len() > 0,
    ensures
        split(list(numbers), 0x3b) == Seq::new(numbers.len(), |i: int| digits(numbers[i])),
    decreases numbers.len(),
{
    let fields = Seq::new(numbers.len(), |i: int| digits(numbers[i]));
    lemma_digit_bytes(numbers.last());
    if numbers.len() == 1 {
        lemma_split_one(digits(numbers[0]), 0x3b);
        assert(fields =~= seq![digits(numbers[0])]);
    } else {
        let front = numbers.drop_last();
        lemma_list_fields(front);
        lemma_split_append(list(front), digits(numbers.last()), 0x3b);
        assert(fields =~= Seq::new(front.len(), |i: int| digits(front[i])).push(
            digits(numbers.last()),
        ));
    }
}

/// A list of numbers is read as those numbers.
pub proof fn lemma_list(numbers: Seq<nat>)
    requires
        forall|i: int| 0 <= i < numbers.len() ==> #[trigger] numbers[i] <= u32::MAX,
    ensures
        params_of(list(numbers)) == single_params(numbers),
        numbers.len() > 0 ==> list(numbers).len() > 0,
        numbers.len() == 0 ==> list(numbers) == Seq::<u8>::empty(),
        forall|i: int| 0 <= i < list(numbers).len() ==> 0x30 <= #[trigger] list(numbers)[i] <= 0x3b,
{
    lemma_list_bytes(numbers);
    if numbers.len() > 0 {
        lemma_list_fields(numbers);
        assert forall|i: int| 0 <= i < numbers.len() implies #[trigger] sub_params(
            split(list(numbers), 0x3b)[i],
        ) == seq![Some(numbers[i] as u32)] by {
            let n = numbers[i];
            assert(n <= u32::MAX);
            lemma_digit_bytes(n);
            lemma_decimal_of_digits(n);
            lemma_split_one(digits(n), 0x3a);
            assert(sub_params(digits(n)) =~= seq![Some(n as u32)]);
        }
    }
    assert(params_of(list(numbers)) =~= single_params(numbers));
}

/// Decimal numbers joined by `:`.
pub open spec fn sub_list(numbers: Seq<nat>) -> Seq<u8>
    decreases numbers.len(),
{
    if numbers.len() == 0 {
        Seq::empty()
    } else if numbers.len() == 1 {
        digits(numbers[0])
    } else {
        sub_list(numbers.drop_last()) + seq![0x3au8] + digits(numbers.last())
    }
}

/// Such numbers are read as sub-parameters.
pub proof fn lemma_sub_list(numbers: Seq<nat>)
    requires
        numbers.len() > 0,
        forall|i: int| 0 <= i < numbers.len() ==> #[trigger] numbers[i] <= u32::MAX,
    ensures
        sub_params(sub_list(numbers)) == Seq::new(numbers.len(), |i: int| Some(numbers[i] as u32)),
        sub_list(numbers).len() > 0,
        forall|i: int|
            0 <= i < sub_list(numbers).len() ==> 0x30 <= #[trigger] sub_list(numbers)[i] <= 0x3a,
{
    lemma_sub_list_fields(numbers);
    let fields = split(sub_list(numbers), 0x3a);
    assert forall|i: int| 0 <= i < numbers.len() implies #[trigger] field_value(fields[i]) == Some(
        numbers[i] as u32,
    ) by {
        assert(numbers[i] <= u32::MAX);
        lemma_decimal_of_digits(numbers[i]);
    }
    assert(sub_params(sub_list(numbers)) =~= Seq::new(
        numbers.len(),
        |i: int| Some(numbers[i] as u32),
    ));
}

/// The fields of such a list are its numbers.
proof fn lemma_sub_list_fields(numbers: Seq<nat>)
    requires
        numbers.len() > 0,
    ensures
        split(sub_list(numbers), 0x3a) == Seq::new(numbers.len(), |i: int| digits(numbers[i])),
        sub_list(numbers).len() > 0,
        forall|i: int|
            0 <= i < sub_list(numbers).len() ==> 0x30 <= #[trigger] sub_list(numbers)[i] <= 0x3a,
    decreases numbers.len(),
{
    let fields = Seq::new(numbers.len(), |i: int| digits(numbers[i]));
    lemma_digit_bytes(numbers.last());
    if numbers.len() == 1 {
        lemma_split_one(digits(numbers[0]), 0x3a);
        assert(fields =~= seq![digits(numbers[0])]);
    } else {
        let front = numbers.drop_last();
        lemma_sub_list_fields(front);
        lemma_split_append(sub_list(front), digits(numbers.last()), 0x3a);
        assert(fields =~= Seq::new(front.len(), |i: int| digits(front[i])).push(
            digits(numbers.last()),
        ));
    }
}

/// A private prefix, where there is one.
pub open spec fn prefix(private: Option<u8>) -> Seq<u8> {
    match private {
        Some(b) => seq![b],
        None => Seq::empty(),
    }
}

/// `ESC [`, a private prefix, parameter bytes and a final byte.
pub open spec fn csi(private: Option<u8>, raw: Seq<u8>, last: u8) -> Seq<u8> {
    seq![ESC, 0x5bu8] + prefix(private) + raw + seq![last]
}

/// The parts of such a sequence.
pub open spec fn parts(private: Option<u8>, raw: Seq<u8>, last: u8) -> CsiView {
    CsiView { private, params_raw: raw, intermediates: Seq::empty(), final_byte: last }
}

/// Bytes without a modifier suffix run to the first final byte.
proof fn lemma_end_is(s: Seq<u8>, i: int, k: int, suffix: bool)
    requires
        0 <= i <= k < s.len(),
        forall|j: int| i <= j < k ==> 0x30 <= #[trigger] s[j] <= 0x3f,
        s[k] > 0x3f,
    ensures
        csi_end(s, i, suffix) == k,
    decreases k - i,
{
    if i < k {
        lemma_end_is(s, i + 1, k, suffix && s[i] != 0x3b);
    }
}

/// Such a sequence comes apart into its parts.
proof fn lemma_parts(private: Option<u8>, raw: Seq<u8>, last: u8)
    requires
        forall|i: int| 0 <= i < raw.len() ==> 0x30 <= #[trigger] raw[i] <= 0x3b,
        private is Some ==> is_private(private->0),
        0x40 <= last <= 0x7e,
    ensures
        split_csi_view(prefix(private) + raw + seq![last]) == parts(private, raw, last),
{
    let whole = prefix(private) + raw + seq![last];
    let inner = whole.drop_last();
    assert(inner =~= prefix(private) + raw);
    let rest = if private is Some {
        inner.subrange(1, inner.len() as int)
    } else {
        inner
    };
    assert(rest =~= raw);
    if private is None && raw.len() > 0 {
        assert(inner[0] == raw[0]);
    }
    lemma_first_from_is(raw, 0, raw.len() as int, intermediates());
    assert(raw.subrange(0, raw.len() as int) =~= raw);
    assert(split_csi_view(whole) =~= parts(private, raw, last));
}

/// Such a sequence is complete with its final byte.
pub proof fn lemma_complete(cfg: Reading, private: Option<u8>, raw: Seq<u8>, last: u8)
    requires
        forall|i: int| 0 <= i < raw.len() ==> 0x30 <= #[trigger] raw[i] <= 0x3b,
        private is Some ==> is_private(private->0),
        0x40 <= last <= 0x7e,
    ensures
        ({
            let s = csi(private, raw, last);
            parsed(cfg, s) == dispatched(cfg, s, 2, s.len() as int)
        }),
{
    let s = csi(private, raw, last);
    reveal(parsed);
    let first: int = if private is Some {
        3
    } else {
        2
    };
    assert forall|j: int| first <= j < s.len() - 1 implies 0x30 <= #[trigger] s[j] <= 0x3f by {
        assert(s[j] == raw[j - first]);
    }
    assert(s[s.len() - 1] == last);
    if private is Some {
        assert(s[2] == private->0);
    } else if raw.len() > 0 {
        assert(s[2] == raw[0]);
    }
    lemma_end_is(s, first, s.len() - 1, private is None);
    assert(parsed(cfg, s) == csi_parsed(cfg, s));
}

/// What such a sequence is read as: what its parts are recognized as, or unknown. Left out are
/// those that take more bytes, and the packets.
pub proof fn lemma_csi(cfg: Reading, private: Option<u8>, raw: Seq<u8>, last: u8)
    requires
        forall|i: int| 0 <= i < raw.len() ==> 0x30 <= #[trigger] raw[i] <= 0x3b,
        private is Some ==> is_private(private->0),
        0x40 <= last <= 0x7e,
        private is Some || last != 0x4d || raw.len() > 0,
        private is Some || last != 0x5f,
    ensures
        ({
            let s = csi(private, raw, last);
            parsed(cfg, s) == (match recognized(parts(private, raw, last), cfg.flags) {
                Some(e) => Parsed::Event(e, s.len() as int),
                None => Parsed::Event(
                    EventView::UnknownCsi(prefix(private) + raw + seq![last]),
                    s.len() as int,
                ),
            })
        }),
{
    let s = csi(private, raw, last);
    lemma_complete(cfg, private, raw, last);
    lemma_parts(private, raw, last);
    assert(s.subrange(2, s.len() as int) =~= prefix(private) + raw + seq![last]);
}

/// What a sequence with a list of numbers is read as, whatever follows it.
pub proof fn lemma_report(
    cfg: Reading,
    private: Option<u8>,
    numbers: Seq<nat>,
    last: u8,
    event: EventView,
    rest: Seq<u8>,
)
    requires
        !cfg.expired,
        forall|i: int| 0 <= i < numbers.len() ==> #[trigger] numbers[i] <= u32::MAX,
        private is Some ==> is_private(private->0),
        0x40 <= last <= 0x7e,
        private is Some || last != 0x4d || numbers.len() > 0,
        private is Some || last != 0x5f,
        recognized(parts(private, list(numbers), last), cfg.flags) == Some(event),
    ensures
        ({
            let s = csi(private, list(numbers), last);
            parsed(cfg, s + rest) == Parsed::Event(event, s.len() as int)
        }),
{
    lemma_list(numbers);
    lemma_csi(cfg, private, list(numbers), last);
    lemma_parsed_extend(cfg, csi(private, list(numbers), last), rest);
}

/// What a packet is read as, whatever follows it.
pub proof fn lemma_packet(cfg: Reading, numbers: Seq<nat>, rest: Seq<u8>)
    requires
        !cfg.expired,
        forall|i: int| 0 <= i < numbers.len() ==> #[trigger] numbers[i] <= u32::MAX,
        numbers.len() == 6,
    ensures
        ({
            let s = csi(None, list(numbers), 0x5f);
            parsed(cfg, s + rest) == packet_parsed(
                single_params(numbers),
                cfg.win32,
                s.len() as int,
            )
        }),
{
    let raw = list(numbers);
    let s = csi(None, raw, 0x5f);
    lemma_list(numbers);
    lemma_complete(cfg, None, raw, 0x5f);
    lemma_parts(None, raw, 0x5f);
    assert(s.subrange(2, s.len() as int) =~= prefix(None) + raw + seq![0x5fu8]);
    lemma_parsed_extend(cfg, s, rest);
}

/// Bytes without a terminator run to the terminator after them.
proof fn lemma_body_end_is(s: Seq<u8>, i: int, k: int, bel: bool)
    requires
        0 <= i <= k < s.len(),
        forall|j: int|
            i <= j < k ==> #[trigger] s[j] != ESC && s[j] != 0x9c && s[j] != 0x07,
        terminator_at(s, k, bel) > 0,
    ensures
        body_end(s, i, bel) == k,
    decreases k - i,
{
    if i < k {
        assert(s[i] != ESC);
        lemma_body_end_is(s, i + 1, k, bel);
    }
}

/// `ESC c`, a payload, and the string terminator `ESC \`.
pub open spec fn string_sequence(c: u8, payload: Seq<u8>) -> Seq<u8> {
    seq![ESC, c] + payload + seq![ESC, 0x5cu8]
}

/// What a string sequence is read as, whatever follows it.
pub proof fn lemma_string(cfg: Reading, c: u8, payload: Seq<u8>, rest: Seq<u8>)
    requires
        !cfg.expired,
        introduces(c),
        c != 0x5b,
        c != 0x4f,
        forall|j: int|
            0 <= j < payload.len() ==> #[trigger] payload[j] != ESC && payload[j] != 0x9c
                && payload[j] != 0x07,
    ensures
        ({
            let s = string_sequence(c, payload);
            parsed(cfg, s + rest) == Parsed::Event(
                string_event(string_kind(c), payload),
                s.len() as int,
            )
        }),
{
    let s = string_sequence(c, payload);
    let kind = string_kind(c);
    let k = s.len() - 2;
    reveal(parsed);
    assert forall|j: int| 2 <= j < k implies #[trigger] s[j] != ESC && s[j] != 0x9c && s[j]
        != 0x07 by {
        assert(s[j] == payload[j - 2]);
    }
    assert(s[k] == ESC && s[k + 1] == 0x5c);
    lemma_body_end_is(s, 2, k, kind is Osc);
    assert(s.subrange(2, k) =~= payload);
    assert(parsed(cfg, s) == string_parsed(kind, s));
    lemma_parsed_extend(cfg, s, rest);
}

/// A text before the first separator, and what is after it.
pub proof fn lemma_before_after(a: Seq<u8>, b: Seq<u8>, sep: u8)
    requires
        forall|i: int| 0 <= i < a.len() ==> #[trigger] a[i] != sep,
    ensures
        before(a + seq![sep] + b, sep) == a,
        after(a + seq![sep] + b, sep) == b,
        occurs(a + seq![sep] + b, sep),
{
    let s = a + seq![sep] + b;
    assert forall|j: int| 0 <= j < a.len() implies #[trigger] s[j] != sep by {
        assert(s[j] == a[j]);
    }
    lemma_first_from_is(s, 0, a.len() as int, equals_byte(sep));
    assert(index_of(s, sep) == a.len());
    assert(before(s, sep) =~= a);
    assert(after(s, sep) =~= b);
}

} // verus!
