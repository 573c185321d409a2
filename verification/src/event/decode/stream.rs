//! What the decoder does with a stream of input: the model of [`Decoder`].
//!
//! [`Decoder`]: crate::event::decode::Decoder

use crate::bytes::ESC;
use crate::event::decode::csi::Reading;
use crate::event::decode::ground::{c1_key, escape_press, lemma_parsed_within, parsed};
use crate::event::decode::keys::is_c1_introducer;
use crate::event::decode::result::Parsed;
use crate::event::key::KeyModifiers;
use crate::event::EventView;
use vstd::prelude::*;

verus! {

/// The state of a decoder.
#[verifier::ext_equal]
pub struct DecoderView {
    /// How input is read.
    pub reading: Reading,
    /// Whether a bracketed paste is in progress.
    pub in_paste: bool,
    /// Events that wait to be handed out.
    pub pending: Seq<EventView>,
    /// Bytes that wait for the rest of their sequence.
    pub buf: Seq<u8>,
}

/// `s` without its first `n` bytes.
pub open spec fn skip(s: Seq<u8>, n: int) -> Seq<u8> {
    s.subrange(n, s.len() as int)
}

/// The events of a group, or the one event.
pub open spec fn flatten(e: EventView) -> Seq<EventView> {
    match e {
        EventView::Multi(group) => group,
        _ => seq![e],
    }
}

/// One chunk of paste content, or nothing for no bytes.
pub open spec fn chunk(bytes: Seq<u8>) -> Seq<EventView> {
    if bytes.len() == 0 {
        Seq::empty()
    } else {
        seq![EventView::PasteChunk(bytes)]
    }
}

/// What resolving the first byte of a partial sequence yields, and how many bytes
/// that takes, once the deadline has passed.
pub open spec fn resolved(s: Seq<u8>) -> (EventView, int) {
    if s[0] == ESC {
        (escape_press(KeyModifiers::empty()), 1)
    } else if is_c1_introducer(s[0]) {
        (EventView::KeyPress(c1_key(s[0])), 1)
    } else {
        (EventView::Unknown(s), s.len() as int)
    }
}

/// One step outside a paste, with nothing pending and bytes to read: the events
/// and the state after it, or nothing where the input must grow.
pub open spec fn step(d: DecoderView) -> Option<(Seq<EventView>, DecoderView)> {
    match parsed(d.reading, d.buf) {
        Parsed::Event(e, n) => Some(
            (
                flatten(e),
                DecoderView { buf: skip(d.buf, n), in_paste: e is PasteStart, ..d },
            ),
        ),
        Parsed::Skip(n) => Some((Seq::empty(), DecoderView { buf: skip(d.buf, n), ..d })),
        Parsed::Packet(e, n, state) => Some(
            (
                match e {
                    Some(e) => flatten(e),
                    None => Seq::empty(),
                },
                DecoderView {
                    buf: skip(d.buf, n),
                    reading: Reading { win32: state, ..d.reading },
                    ..d
                },
            ),
        ),
        Parsed::Incomplete => if d.reading.expired {
            Some(
                (
                    seq![resolved(d.buf).0],
                    DecoderView { buf: skip(d.buf, resolved(d.buf).1), ..d },
                ),
            )
        } else {
            None
        },
    }
}

/// Everything that can be decoded from the state `d`: the events in order, and
/// the state after them.
pub open spec fn run(d: DecoderView) -> (Seq<EventView>, DecoderView)
    decreases d.buf.len(), d.pending.len(),
{
    if d.pending.len() > 0 {
        let (events, after) = run(DecoderView { pending: d.pending.drop_first(), ..d });
        (seq![d.pending[0]] + events, after)
    } else if d.buf.len() == 0 {
        (Seq::empty(), d)
    } else if d.in_paste {
        proof {
            lemma_terminator_from(d.buf, 0);
        }
        let at = terminator_from(d.buf, 0);
        if at + 6 <= d.buf.len() {
            let (events, after) = run(
                DecoderView { buf: skip(d.buf, at + 6), in_paste: false, ..d },
            );
            (chunk(d.buf.subrange(0, at)) + seq![EventView::PasteEnd] + events, after)
        } else {
            (chunk(d.buf.subrange(0, at)), DecoderView { buf: skip(d.buf, at), ..d })
        }
    } else {
        proof {
            lemma_step(d);
        }
        match step(d) {
            Some((first, next)) => {
                let (events, after) = run(next);
                (first + events, after)
            },
            None => (Seq::empty(), d),
        }
    }
}

/// The state with more bytes to read.
pub open spec fn fed(d: DecoderView, data: Seq<u8>) -> DecoderView {
    DecoderView { buf: d.buf + data, ..d }
}

/// A step takes bytes off the input.
pub proof fn lemma_step(d: DecoderView)
    requires
        d.buf.len() > 0,
    ensures
        step(d) matches Some((_, next)) ==> next.buf.len() < d.buf.len() && next.pending
            == d.pending && next.reading.expired == d.reading.expired,
{
    lemma_parsed_within(d.reading, d.buf);
}

/// The six bytes that end a bracketed paste, `ESC [ 2 0 1 ~`.
pub open spec fn paste_terminator() -> Seq<u8> {
    seq![0x1b, 0x5b, 0x32, 0x30, 0x31, 0x7e]
}

/// Whether the bytes of `s` from `i` on, as far as they are there, are those of
/// the paste terminator.
pub open spec fn terminates_at(s: Seq<u8>, i: int) -> bool {
    forall|k: int| 0 <= k < 6 && i + k < s.len() ==> #[trigger] s[i + k] == paste_terminator()[k]
}

/// The first index at or after `i` where the paste terminator is, or may still be
/// arriving; the end of `s` where there is none.
pub open spec fn terminator_from(s: Seq<u8>, i: int) -> int
    decreases s.len() - i,
{
    if i >= s.len() {
        s.len() as int
    } else if terminates_at(s, i) {
        i
    } else {
        terminator_from(s, i + 1)
    }
}

/// What one call hands out during a paste: how many bytes of `data` it takes, the
/// event, and the state after it.
pub open spec fn one_in_paste(
    d: DecoderView,
    data: Seq<u8>,
) -> (int, Option<EventView>, DecoderView) {
    let at = terminator_from(data, 0);
    if at + 6 > data.len() {
        if at == 0 {
            (0, None, d)
        } else {
            (at, Some(EventView::PasteChunk(data.subrange(0, at))), d)
        }
    } else if at == 0 {
        (6, Some(EventView::PasteEnd), DecoderView { in_paste: false, ..d })
    } else {
        (
            at + 6,
            Some(EventView::PasteChunk(data.subrange(0, at))),
            DecoderView { in_paste: false, pending: d.pending.push(EventView::PasteEnd), ..d },
        )
    }
}

/// Hand out the first event of `e` and keep the rest pending.
pub open spec fn first_of(d: DecoderView, e: EventView) -> (Option<EventView>, DecoderView) {
    let group = flatten(e);
    if group.len() == 0 {
        (None, d)
    } else {
        (Some(group[0]), DecoderView { pending: d.pending + group.drop_first(), ..d })
    }
}

/// What one call on the caller's bytes `data` yields: how many bytes it takes,
/// the event, and the state after it.
pub open spec fn one(d: DecoderView, data: Seq<u8>) -> (int, Option<EventView>, DecoderView) {
    if d.pending.len() > 0 {
        (0, Some(d.pending[0]), DecoderView { pending: d.pending.drop_first(), ..d })
    } else if data.len() == 0 {
        (0, None, d)
    } else if d.in_paste {
        one_in_paste(d, data)
    } else {
        match parsed(d.reading, data) {
            Parsed::Event(e, n) => {
                let (first, after) = first_of(DecoderView { in_paste: e is PasteStart, ..d }, e);
                (n, first, after)
            },
            Parsed::Skip(n) => (n, None, d),
            Parsed::Packet(e, n, state) => {
                let next = DecoderView {
                    reading: Reading { win32: state, ..d.reading },
                    ..d
                };
                match e {
                    Some(e) => {
                        let (first, after) = first_of(next, e);
                        (n, first, after)
                    },
                    None => (n, None, next),
                }
            },
            Parsed::Incomplete => (0, None, d),
        }
    }
}

/// The search for the paste terminator stays in the sequence.
pub proof fn lemma_terminator_from(s: Seq<u8>, i: int)
    requires
        0 <= i <= s.len(),
    ensures
        i <= terminator_from(s, i) <= s.len(),
        terminates_at(s, terminator_from(s, i)),
        forall|k: int| i <= k < terminator_from(s, i) ==> !#[trigger] terminates_at(s, k),
    decreases s.len() - i,
{
    if i < s.len() && !terminates_at(s, i) {
        lemma_terminator_from(s, i + 1);
    }
}

} // verus!
