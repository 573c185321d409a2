//! The 8-bit introducers are equivalent to their 7-bit forms.

use crate::bytes::{first_from, lemma_first_from, ESC};
use crate::event::decode::csi::{
    csi_end, csi_parsed, dispatched, is_private, lemma_csi_end, raw_mouse_parsed, split_csi_view,
    utf8_value, Reading,
};
use crate::event::decode::ground::{introduced, introduces, parsed, string_kind};
use crate::event::decode::result::Parsed;
use crate::event::decode::ss3::{non_digit, ss3_parsed};
use crate::event::decode::strings::{
    body_end, lemma_body_end, string_parsed, terminator_at, StringKind,
};
use crate::event::decode::win32::{packet_parsed, Win32State};
use crate::event::EventView;
use vstd::prelude::*;

verus! {

/// Whether the outcome `p` of an 8-bit form is the outcome `q` of the 7-bit form,
/// which is one byte longer. An unknown SS3 sequence keeps its introducer; there the two
/// agree after it.
pub open spec fn same_outcome(p: Parsed, q: Parsed) -> bool {
    match (p, q) {
        (Parsed::Incomplete, Parsed::Incomplete) => true,
        (Parsed::Skip(n), Parsed::Skip(m)) => m == n + 1,
        (Parsed::Event(e, n), Parsed::Event(g, m)) => m == n + 1 && same_event(e, g),
        (Parsed::Packet(e, n, s), Parsed::Packet(g, m, t)) => e == g && m == n + 1 && s == t,
        _ => false,
    }
}

/// Whether the event `e` of an 8-bit form is the event `g` of the 7-bit form.
pub open spec fn same_event(e: EventView, g: EventView) -> bool {
    e == g || match (e, g) {
        (EventView::UnknownSs3(b), EventView::UnknownSs3(c)) => b.len() >= 1 && c.len() >= 2
            && b.subrange(1, b.len() as int) == c.subrange(2, c.len() as int),
        _ => false,
    }
}

/// The 8-bit form of a sequence.
pub open spec fn short_form(c: u8, body: Seq<u8>) -> Seq<u8> {
    seq![(c + 0x40) as u8] + body
}

/// The 7-bit form of a sequence.
pub open spec fn long_form(c: u8, body: Seq<u8>) -> Seq<u8> {
    seq![ESC, c] + body
}

/// The two forms hold the same bytes after their introducers.
proof fn lemma_forms(c: u8, body: Seq<u8>)
    ensures
        long_form(c, body).len() == short_form(c, body).len() + 1,
        forall|i: int|
            1 <= i < short_form(c, body).len() ==> #[trigger] short_form(c, body)[i] == long_form(
                c,
                body,
            )[i + 1],
{
}

proof fn lemma_search_shift(s: Seq<u8>, l: Seq<u8>, i: int, p: spec_fn(u8) -> bool)
    requires
        1 <= i <= s.len(),
        l.len() == s.len() + 1,
        forall|k: int| 1 <= k < s.len() ==> #[trigger] s[k] == l[k + 1],
    ensures
        first_from(l, i + 1, p) == first_from(s, i, p) + 1,
    decreases s.len() - i,
{
    if i < s.len() {
        assert(s[i] == l[i + 1]);
        lemma_search_shift(s, l, i + 1, p);
    }
}

proof fn lemma_csi_end_shift(s: Seq<u8>, l: Seq<u8>, i: int, suffix: bool)
    requires
        1 <= i <= s.len(),
        l.len() == s.len() + 1,
        forall|k: int| 1 <= k < s.len() ==> #[trigger] s[k] == l[k + 1],
    ensures
        csi_end(l, i + 1, suffix) == csi_end(s, i, suffix) + 1,
    decreases s.len() - i,
{
    if i < s.len() {
        assert(s[i] == l[i + 1]);
        lemma_csi_end_shift(s, l, i + 1, suffix && s[i] != 0x3b);
    }
}

proof fn lemma_body_shift(s: Seq<u8>, l: Seq<u8>, i: int, bel: bool)
    requires
        1 <= i <= s.len(),
        l.len() == s.len() + 1,
        forall|k: int| 1 <= k < s.len() ==> #[trigger] s[k] == l[k + 1],
    ensures
        body_end(l, i + 1, bel) == body_end(s, i, bel) + 1,
        body_end(s, i, bel) < s.len() ==> terminator_at(l, body_end(s, i, bel) + 1, bel)
            == terminator_at(s, body_end(s, i, bel), bel),
    decreases s.len() - i,
{
    if i < s.len() {
        assert(s[i] == l[i + 1]);
        if i + 1 < s.len() {
            assert(s[i + 1] == l[i + 2]);
        }
        lemma_body_shift(s, l, i + 1, bel);
    }
}

proof fn lemma_value_shift(s: Seq<u8>, l: Seq<u8>, i: int)
    requires
        1 <= i,
        l.len() == s.len() + 1,
        forall|k: int| 1 <= k < s.len() ==> #[trigger] s[k] == l[k + 1],
    ensures
        utf8_value(s, i) is Some == utf8_value(l, i + 1) is Some,
        utf8_value(s, i) is Some ==> utf8_value(s, i)->0.value == utf8_value(l, i + 1)->0.value
            && utf8_value(l, i + 1)->0.end == utf8_value(s, i)->0.end + 1 && utf8_value(
            s,
            i,
        )->0.end > i,
{
    if i < s.len() {
        assert(s[i] == l[i + 1]);
        assert(s.subrange(i, s.len() as int) =~= l.subrange(i + 1, l.len() as int));
    }
}

proof fn lemma_raw_mouse_forms(cfg: Reading, s: Seq<u8>, l: Seq<u8>, n: int)
    requires
        1 <= n <= s.len(),
        l.len() == s.len() + 1,
        forall|k: int| 1 <= k < s.len() ==> #[trigger] s[k] == l[k + 1],
    ensures
        same_outcome(raw_mouse_parsed(cfg, s, n), raw_mouse_parsed(cfg, l, n + 1)),
{
    lemma_value_shift(s, l, n);
    if let Some(cb) = utf8_value(s, n) {
        lemma_value_shift(s, l, cb.end);
        if let Some(cx) = utf8_value(s, cb.end) {
            lemma_value_shift(s, l, cx.end);
        }
    }
    if n + 2 < s.len() {
        assert(s[n] == l[n + 1]);
        assert(s[n + 1] == l[n + 2]);
        assert(s[n + 2] == l[n + 3]);
    }
}

proof fn lemma_packet_forms(p: Seq<Seq<Option<u32>>>, state: Win32State, n: int)
    ensures
        same_outcome(packet_parsed(p, state, n), packet_parsed(p, state, n + 1)),
{
}

proof fn lemma_dispatched_forms(cfg: Reading, s: Seq<u8>, l: Seq<u8>, n: int)
    requires
        1 < n <= s.len(),
        l.len() == s.len() + 1,
        forall|k: int| 1 <= k < s.len() ==> #[trigger] s[k] == l[k + 1],
    ensures
        same_outcome(dispatched(cfg, s, 1, n), dispatched(cfg, l, 2, n + 1)),
{
    assert(s.subrange(1, n) =~= l.subrange(2, n + 1));
    let c = split_csi_view(s.subrange(1, n));
    lemma_raw_mouse_forms(cfg, s, l, n);
    lemma_packet_forms(c.params(), cfg.win32, n);
}

proof fn lemma_csi_forms(cfg: Reading, body: Seq<u8>)
    ensures
        same_outcome(
            csi_parsed(cfg, short_form(0x5b, body)),
            csi_parsed(cfg, long_form(0x5b, body)),
        ),
{
    let s = short_form(0x5b, body);
    let l = long_form(0x5b, body);
    lemma_forms(0x5b, body);
    let private = 1 < s.len() && is_private(s[1]);
    if 1 < s.len() {
        assert(s[1] == l[2]);
    }
    let first: int = if private {
        2
    } else {
        1
    };
    let i = csi_end(s, first, !private);
    lemma_csi_end(s, first, !private);
    lemma_csi_end_shift(s, l, first, !private);
    if i < s.len() {
        assert(s[i] == l[i + 1]);
        lemma_dispatched_forms(cfg, s, l, i + 1);
    }
}

proof fn lemma_ss3_forms(body: Seq<u8>)
    ensures
        same_outcome(ss3_parsed(short_form(0x4f, body)), ss3_parsed(long_form(0x4f, body))),
{
    let s = short_form(0x4f, body);
    let l = long_form(0x4f, body);
    lemma_forms(0x4f, body);
    lemma_first_from(s, 1, non_digit());
    lemma_search_shift(s, l, 1, non_digit());
    let i = first_from(s, 1, non_digit());
    if i < s.len() {
        assert(s[i] == l[i + 1]);
        assert(s.subrange(1, i) =~= l.subrange(2, i + 1));
        assert(s.subrange(0, i).subrange(1, i) =~= l.subrange(0, i + 1).subrange(2, i + 1));
        assert(s.subrange(0, i + 1).subrange(1, i + 1) =~= l.subrange(0, i + 2).subrange(
            2,
            i + 2,
        ));
    }
}

proof fn lemma_string_forms(kind: StringKind, c: u8, body: Seq<u8>)
    requires
        0x40 <= c < 0x60,
    ensures
        same_outcome(
            string_parsed(kind, short_form(c, body)),
            string_parsed(kind, long_form(c, body)),
        ),
{
    let s = short_form(c, body);
    let l = long_form(c, body);
    lemma_forms(c, body);
    lemma_body_end(s, 1, kind is Osc);
    lemma_body_shift(s, l, 1, kind is Osc);
    let end = body_end(s, 1, kind is Osc);
    if end < s.len() {
        assert(s.subrange(1, end) =~= l.subrange(2, end + 1));
    }
}

/// An 8-bit C1 introducer is equivalent to its `ESC` form: what follows decodes to
/// the same event, and takes one byte less.
pub proof fn law_c1_introducers_are_equivalent(cfg: Reading, c: u8, body: Seq<u8>)
    requires
        introduces(c),
    ensures
        same_outcome(parsed(cfg, short_form(c, body)), parsed(cfg, long_form(c, body))),
{
    reveal(parsed);
    let s = short_form(c, body);
    let l = long_form(c, body);
    assert(parsed(cfg, s) == introduced(cfg, s, c));
    assert(parsed(cfg, l) == introduced(cfg, l, c));
    if c == 0x5b {
        lemma_csi_forms(cfg, body);
    } else if c == 0x4f {
        lemma_ss3_forms(body);
    } else {
        lemma_string_forms(string_kind(c), c, body);
    }
}

} // verus!
