//! Laws of the decoder.

use crate::event::decode::ground::{lemma_parsed_extend, lemma_parsed_within, parsed};
use crate::event::decode::result::taken;
use crate::event::decode::stream::{
    chunk, fed, lemma_step, lemma_terminator_from, one, paste_terminator, run, skip, step,
    terminates_at, terminator_from, DecoderView,
};
use crate::event::EventView;
use vstd::prelude::*;

verus! {

/// Put an event in front of a list, joining it with a paste chunk that follows a
/// paste chunk.
pub open spec fn joined_front(e: EventView, rest: Seq<EventView>) -> Seq<EventView> {
    if e is PasteChunk && rest.len() > 0 && rest[0] is PasteChunk {
        seq![EventView::PasteChunk(e->PasteChunk_0 + rest[0]->PasteChunk_0)] + rest.drop_first()
    } else {
        seq![e] + rest
    }
}

/// The events with neighbouring paste chunks joined: what an application sees that
/// assembles its pastes.
pub open spec fn coalesced(events: Seq<EventView>) -> Seq<EventView>
    decreases events.len(),
{
    if events.len() == 0 {
        Seq::empty()
    } else {
        joined_front(events[0], coalesced(events.drop_first()))
    }
}

/// Joining chunks at the end of a list depends only on the joined form of the end.
proof fn lemma_coalesced_after(front: Seq<EventView>, a: Seq<EventView>, b: Seq<EventView>)
    requires
        coalesced(a) == coalesced(b),
    ensures
        coalesced(front + a) == coalesced(front + b),
    decreases front.len(),
{
    if front.len() == 0 {
        assert(front + a =~= a);
        assert(front + b =~= b);
    } else {
        lemma_coalesced_after(front.drop_first(), a, b);
        assert((front + a).drop_first() =~= front.drop_first() + a);
        assert((front + b).drop_first() =~= front.drop_first() + b);
    }
}

/// A chunk may be cut anywhere.
proof fn lemma_coalesced_cut(x: Seq<u8>, y: Seq<u8>, rest: Seq<EventView>)
    ensures
        coalesced(chunk(x) + (chunk(y) + rest)) == coalesced(chunk(x + y) + rest),
{
    let joined = chunk(x + y) + rest;
    let cut = chunk(x) + (chunk(y) + rest);
    if x.len() == 0 {
        assert(x + y =~= y);
        assert(cut =~= joined);
    } else if y.len() == 0 {
        assert(x + y =~= x);
        assert(cut =~= joined);
    } else {
        let tail = chunk(y) + rest;
        assert(cut.drop_first() =~= tail);
        assert(tail.drop_first() =~= rest);
        assert(joined.drop_first() =~= rest);
        let r = coalesced(rest);
        if r.len() > 0 && r[0] is PasteChunk {
            let z = r[0]->PasteChunk_0;
            let t = coalesced(tail);
            assert(t == seq![EventView::PasteChunk(y + z)] + r.drop_first());
            assert(t.drop_first() =~= r.drop_first());
            assert(x + (y + z) =~= x + y + z);
        } else {
            let t = coalesced(tail);
            assert(t == seq![EventView::PasteChunk(y)] + r);
            assert(t.drop_first() =~= r);
        }
        assert(coalesced(cut) =~= coalesced(joined));
    }
}

/// A paste that had to be held back, read with more bytes.
proof fn lemma_held_paste(d: DecoderView, data: Seq<u8>)
    requires
        d.in_paste,
        d.pending.len() == 0,
        d.buf.len() > 0,
        terminator_from(d.buf, 0) + 6 > d.buf.len(),
    ensures
        coalesced(run(fed(d, data)).0) == coalesced(
            run(d).0 + run(fed(run(d).1, data)).0,
        ),
        run(fed(d, data)).1 == run(fed(run(d).1, data)).1,
{
    let s = d.buf;
    let st = s + data;
    lemma_terminator_from(s, 0);
    let h = terminator_from(s, 0);
    let held = s.subrange(0, h);
    let rest = skip(s, h) + data;
    assert(skip(st, h) =~= rest);
    lemma_terminator_extend(s, data, 0);
    lemma_terminator_shift(st, h, 0);
    lemma_terminator_from(rest, 0);
    let at = terminator_from(rest, 0);
    assert(terminator_from(st, 0) == h + at);
    let first = fed(d, data);
    let second = fed(run(d).1, data);
    assert(first.buf == st);
    assert(second.buf == rest);
    let y = rest.subrange(0, at);
    assert(st.subrange(0, h + at) =~= held + y);
    if rest.len() == 0 {
        assert(st.subrange(0, h) =~= held);
        assert(run(second).0 =~= Seq::<EventView>::empty());
        assert(run(d).0 + run(second).0 =~= run(d).0);
        assert(run(first).1 =~= second);
    } else if at + 6 <= rest.len() {
        assert(skip(st, h + at + 6) =~= skip(rest, at + 6));
        let after = run(DecoderView { buf: skip(rest, at + 6), in_paste: false, ..d });
        let tail = seq![EventView::PasteEnd] + after.0;
        assert(run(second).0 =~= chunk(y) + tail);
        assert(run(first).0 =~= chunk(held + y) + tail);
        lemma_coalesced_cut(held, y, tail);
    } else {
        assert(skip(st, h + at) =~= skip(rest, at));
        let nothing = Seq::<EventView>::empty();
        assert(run(second).0 =~= chunk(y) + nothing);
        assert(run(first).0 =~= chunk(held + y) + nothing);
        lemma_coalesced_cut(held, y, nothing);
        assert(run(first).1 =~= run(second).1);
    }
}

/// Splitting the input at any boundary does not change what is decoded: decoding
/// everything at once yields the same events and leaves the same state as decoding
/// what is there and feeding the rest later. Only where a paste is cut into chunks
/// may differ.
pub proof fn law_chunking_does_not_matter(d: DecoderView, data: Seq<u8>)
    requires
        !d.reading.expired,
    ensures
        coalesced(run(fed(d, data)).0) == coalesced(
            run(d).0 + run(fed(run(d).1, data)).0,
        ),
        run(fed(d, data)).1 == run(fed(run(d).1, data)).1,
    decreases d.buf.len(), d.pending.len(),
{
    let whole = fed(d, data);
    if d.pending.len() > 0 {
        let next = DecoderView { pending: d.pending.drop_first(), ..d };
        law_chunking_does_not_matter(next, data);
        assert(fed(next, data) =~= (DecoderView {
            pending: whole.pending.drop_first(),
            ..whole
        }));
        let front = seq![d.pending[0]];
        let later = run(fed(run(d).1, data)).0;
        lemma_coalesced_after(front, run(fed(next, data)).0, run(next).0 + later);
        assert(front + (run(next).0 + later) =~= run(d).0 + later);
    } else if d.buf.len() == 0 {
        assert(run(d).0 + run(whole).0 =~= run(whole).0);
    } else if d.in_paste {
        lemma_terminator_from(d.buf, 0);
        let at = terminator_from(d.buf, 0);
        if at + 6 > d.buf.len() {
            lemma_held_paste(d, data);
        } else {
            lemma_terminator_extend(d.buf, data, 0);
            let next = DecoderView { buf: skip(d.buf, at + 6), in_paste: false, ..d };
            law_chunking_does_not_matter(next, data);
            assert(skip(whole.buf, at + 6) =~= next.buf + data);
            assert(whole.buf.subrange(0, at) =~= d.buf.subrange(0, at));
            let front = chunk(d.buf.subrange(0, at)) + seq![EventView::PasteEnd];
            let later = run(fed(run(d).1, data)).0;
            lemma_coalesced_after(front, run(fed(next, data)).0, run(next).0 + later);
            assert(front + (run(next).0 + later) =~= run(d).0 + later);
        }
    } else {
        lemma_step(d);
        match step(d) {
            None => {
                assert(run(d).0 + run(whole).0 =~= run(whole).0);
            },
            Some((front, next)) => {
                lemma_parsed_within(d.reading, d.buf);
                lemma_parsed_extend(d.reading, d.buf, data);
                let n = taken(parsed(d.reading, d.buf));
                assert(skip(whole.buf, n) =~= skip(d.buf, n) + data);
                assert(step(whole) == Some((front, fed(next, data))));
                law_chunking_does_not_matter(next, data);
                let later = run(fed(run(d).1, data)).0;
                lemma_coalesced_after(front, run(fed(next, data)).0, run(next).0 + later);
                assert(front + (run(next).0 + later) =~= run(d).0 + later);
            },
        }
    }
}

/// Decoding stops only where it must: nothing is left pending, and what is left of
/// the input is paste content that may be followed by its terminator, or the
/// beginning of a sequence.
pub proof fn law_decoding_is_exhaustive(d: DecoderView)
    ensures
        run(d).1.pending.len() == 0,
        run(d).1.buf.len() == 0 || run(d).1.in_paste || parsed(
            run(d).1.reading,
            run(d).1.buf,
        ) is Incomplete,
        d.reading.expired ==> run(d).1.buf.len() == 0 || run(d).1.in_paste,
        run(d).1.reading.expired == d.reading.expired,
    decreases d.buf.len(), d.pending.len(),
{
    if d.pending.len() > 0 {
        law_decoding_is_exhaustive(DecoderView { pending: d.pending.drop_first(), ..d });
    } else if d.buf.len() > 0 {
        if d.in_paste {
            lemma_terminator_from(d.buf, 0);
            let at = terminator_from(d.buf, 0);
            if at + 6 <= d.buf.len() {
                law_decoding_is_exhaustive(
                    DecoderView { buf: skip(d.buf, at + 6), in_paste: false, ..d },
                );
            }
        } else {
            lemma_step(d);
            if let Some((_, next)) = step(d) {
                law_decoding_is_exhaustive(next);
            }
        }
    }
}

/// The events of an optional event.
pub open spec fn listed(e: Option<EventView>) -> Seq<EventView> {
    match e {
        Some(e) => seq![e],
        None => Seq::empty(),
    }
}

/// What a caller gets that owns the buffer `data` and asks for one event at a time
/// until the decoder asks for more: the events, the state, and the bytes it keeps.
pub open spec fn pumped(d: DecoderView, data: Seq<u8>) -> (Seq<EventView>, DecoderView, Seq<u8>)
    decreases data.len(), d.pending.len(),
{
    proof {
        lemma_one(d, data);
    }
    let (n, e, after) = one(d, data);
    if n == 0 && e is None {
        (Seq::empty(), d, data)
    } else {
        let (events, last, kept) = pumped(after, skip(data, n));
        (listed(e) + events, last, kept)
    }
}

/// A call takes bytes, hands out a pending event, or changes nothing.
pub proof fn lemma_one(d: DecoderView, data: Seq<u8>)
    ensures
        ({
            let (n, e, after) = one(d, data);
            &&& 0 <= n <= data.len()
            &&& n == 0 && e is None ==> after == d
            &&& n == 0 && e is Some ==> after.pending.len() < d.pending.len()
            &&& after.reading.expired == d.reading.expired
        }),
{
    lemma_parsed_within(d.reading, data);
    lemma_terminator_from(data, 0);
}

/// More bytes do not make a place the paste terminator that was none.
proof fn lemma_terminator_extend(s: Seq<u8>, t: Seq<u8>, i: int)
    requires
        0 <= i <= s.len(),
    ensures
        ({
            let at = terminator_from(s, i);
            if at + 6 <= s.len() {
                terminator_from(s + t, i) == at
            } else {
                terminator_from(s + t, i) == terminator_from(s + t, at)
            }
        }),
    decreases s.len() - i,
{
    let st = s + t;
    lemma_terminator_from(s, i);
    if i < s.len() {
        if terminates_at(s, i) {
            if i + 6 <= s.len() {
                assert forall|k: int| 0 <= k < 6 && i + k < st.len() implies #[trigger] st[i + k]
                    == paste_terminator()[k] by {
                    assert(st[i + k] == s[i + k]);
                }
            }
        } else {
            let k = choose|k: int|
                0 <= k < 6 && i + k < s.len() && #[trigger] s[i + k] != paste_terminator()[k];
            assert(st[i + k] == s[i + k]);
            assert(!terminates_at(st, i));
            lemma_terminator_extend(s, t, i + 1);
        }
    }
}

/// Searching from further on is searching the rest.
proof fn lemma_terminator_shift(s: Seq<u8>, h: int, i: int)
    requires
        0 <= h,
        0 <= i,
        h + i <= s.len(),
    ensures
        terminator_from(s, h + i) == h + terminator_from(skip(s, h), i),
    decreases s.len() - h - i,
{
    let r = skip(s, h);
    if h + i < s.len() {
        assert forall|k: int| 0 <= k < 6 && i + k < r.len() implies #[trigger] r[i + k] == s[h + i
            + k] by {}
        if terminates_at(s, h + i) {
            assert forall|k: int| 0 <= k < 6 && i + k < r.len() implies #[trigger] r[i + k]
                == paste_terminator()[k] by {
                assert(s[h + i + k] == paste_terminator()[k]);
            }
        } else {
            let k = choose|k: int|
                0 <= k < 6 && h + i + k < s.len() && #[trigger] s[h + i + k]
                    != paste_terminator()[k];
            assert(r[i + k] == s[h + i + k]);
            assert(!terminates_at(r, i));
            lemma_terminator_shift(s, h, i + 1);
        }
    }
}

/// A paste that had to be held back, pumped with more bytes.
proof fn lemma_held_pump(d: DecoderView, data: Seq<u8>, more: Seq<u8>)
    requires
        d.in_paste,
        d.pending.len() == 0,
        data.len() > 0,
        terminator_from(data, 0) + 6 > data.len(),
    ensures
        ({
            let (events, last, kept) = pumped(d, data);
            let (later, end, left) = pumped(last, kept + more);
            let (all, whole_end, whole_left) = pumped(d, data + more);
            coalesced(all) == coalesced(events + later) && whole_end == end && whole_left == left
        }),
{
    let h = terminator_from(data, 0);
    lemma_terminator_from(data, 0);
    let st = data + more;
    let kept = skip(data, h);
    let held = data.subrange(0, h);
    lemma_terminator_shift(data, h, 0);
    assert(terminator_from(data, h) == h);
    assert(terminator_from(kept, 0) == 0);
    // What the first pump yields: at most one chunk, and then it asks for more.
    assert(kept.len() > 0 ==> one(d, kept) == (0int, None::<EventView>, d));
    assert(pumped(d, kept) == (Seq::<EventView>::empty(), d, kept));
    if h == 0 {
        assert(kept =~= data);
    }
    assert(pumped(d, data).0 =~= chunk(held));
    assert(pumped(d, data).1 == d);
    assert(pumped(d, data).2 == kept);
    // The same bytes in one go.
    let rest = kept + more;
    assert(skip(st, h) =~= rest);
    lemma_terminator_extend(data, more, 0);
    lemma_terminator_shift(st, h, 0);
    let at = terminator_from(rest, 0);
    lemma_terminator_from(rest, 0);
    assert(terminator_from(st, 0) == h + at);
    let y = rest.subrange(0, at);
    assert(st.subrange(0, h + at) =~= held + y);
    let nothing = Seq::<EventView>::empty();
    if rest.len() == 0 {
        assert(st =~= data);
        assert(chunk(held) + nothing =~= chunk(held));
    } else if at + 6 > rest.len() {
        let tail = skip(rest, at);
        assert(skip(st, h + at) =~= tail);
        lemma_terminator_shift(rest, at, 0);
        assert(terminator_from(rest, at) == at);
        assert(terminator_from(tail, 0) == 0);
        assert(pumped(d, tail) == (nothing, d, tail));
        if at == 0 {
            assert(tail =~= rest);
        }
        if h + at == 0 {
            assert(tail =~= st);
        }
        assert(pumped(d, rest).0 =~= chunk(y) + nothing);
        assert(pumped(d, st).0 =~= chunk(held + y) + nothing);
        lemma_coalesced_cut(held, y, nothing);
    } else {
        let out = DecoderView { in_paste: false, ..d };
        let queued = DecoderView { pending: d.pending.push(EventView::PasteEnd), ..out };
        let tail = skip(rest, at + 6);
        assert(skip(st, h + at + 6) =~= tail);
        assert(queued.pending.drop_first() =~= d.pending);
        let end = seq![EventView::PasteEnd] + pumped(out, tail).0;
        assert(skip(tail, 0) =~= tail);
        assert(one(queued, tail) == (0int, Some(EventView::PasteEnd), out));
        assert(pumped(queued, tail).0 == end);
        assert(pumped(d, rest).0 =~= chunk(y) + end);
        assert(pumped(d, st).0 =~= chunk(held + y) + end);
        lemma_coalesced_cut(held, y, end);
    }
}

/// Splitting the caller's input at any boundary does not change what it is handed
/// one event at a time: the events, the state and the bytes kept are the same.
/// Only where a paste is cut into chunks may differ.
pub proof fn law_chunking_does_not_matter_one_by_one(
    d: DecoderView,
    data: Seq<u8>,
    more: Seq<u8>,
)
    requires
        !d.reading.expired,
    ensures
        ({
            let (events, last, kept) = pumped(d, data);
            let (later, end, left) = pumped(last, kept + more);
            let (all, whole_end, whole_left) = pumped(d, data + more);
            coalesced(all) == coalesced(events + later) && whole_end == end && whole_left == left
        }),
    decreases data.len(), d.pending.len(),
{
    lemma_one(d, data);
    let whole = data + more;
    let (n, e, after) = one(d, data);
    if d.pending.len() == 0 && data.len() == 0 {
        assert(whole =~= more);
        assert(data + more =~= more);
        assert(Seq::<EventView>::empty() + pumped(d, more).0 =~= pumped(d, more).0);
    } else if d.pending.len() == 0 && d.in_paste && terminator_from(data, 0) + 6 > data.len() {
        lemma_held_pump(d, data, more);
    } else if n == 0 && e is None {
        assert(Seq::<EventView>::empty() + pumped(d, whole).0 =~= pumped(d, whole).0);
    } else {
        if d.pending.len() == 0 {
            if d.in_paste {
                lemma_terminator_from(data, 0);
                lemma_terminator_extend(data, more, 0);
                let at = terminator_from(data, 0);
                assert(whole.subrange(0, at) =~= data.subrange(0, at));
            } else {
                lemma_parsed_extend(d.reading, data, more);
            }
        }
        assert(one(d, whole) == (n, e, after));
        assert(skip(whole, n) =~= skip(data, n) + more);
        law_chunking_does_not_matter_one_by_one(after, skip(data, n), more);
        let (events, last, kept) = pumped(after, skip(data, n));
        let later = pumped(last, kept + more).0;
        lemma_coalesced_after(listed(e), pumped(after, skip(whole, n)).0, events + later);
        assert(listed(e) + (events + later) =~= listed(e) + events + later);
    }
}

/// The first terminator after content that does not hold it is the one behind the content.
proof fn lemma_terminator_behind(body: Seq<u8>, rest: Seq<u8>)
    requires
        content_is_free(body),
    ensures
        terminator_from(body + paste_terminator() + rest, 0) == body.len(),
{
    let s = body + paste_terminator() + rest;
    lemma_terminator_from(s, 0);
    let at = terminator_from(s, 0);
    assert(terminates_at(s, body.len() as int)) by {
        assert forall|k: int| 0 <= k < 6 && body.len() + k < s.len() implies #[trigger] s[body.len()
            + k] == paste_terminator()[k] by {}
    }
    if at < body.len() {
        lemma_no_overlap(body, rest, at);
    }
}

/// A terminator does not begin in content that does not hold it.
proof fn lemma_no_overlap(body: Seq<u8>, rest: Seq<u8>, i: int)
    requires
        content_is_free(body),
        0 <= i < body.len(),
    ensures
        !terminates_at(body + paste_terminator() + rest, i),
{
    let s = body + paste_terminator() + rest;
    if terminates_at(s, i) {
        if i + 6 <= body.len() {
            let part = body.subrange(i, i + 6);
            assert forall|k: int| 0 <= k < 6 implies #[trigger] part[k] == paste_terminator()[k] by {
                assert(s[i + k] == body[i + k]);
            }
            assert(part =~= paste_terminator());
            assert(false);
        } else {
            // The `ESC` behind the content would have to be a later byte of a terminator.
            let k = body.len() - i;
            assert(s[i + k] == paste_terminator()[0]);
            assert(s[i + k] == paste_terminator()[k]);
            assert(false);
        }
    }
}

/// Whether paste content does not hold the terminator.
pub open spec fn content_is_free(body: Seq<u8>) -> bool {
    forall|i: int|
        0 <= i && i + 6 <= body.len() ==> #[trigger] body.subrange(i, i + 6) != paste_terminator()
}

/// The content of a paste is delivered verbatim, whatever it holds but the terminator:
/// it is one chunk, the paste ends, and the end is reported next.
pub proof fn law_paste_content_is_verbatim(d: DecoderView, body: Seq<u8>, rest: Seq<u8>)
    requires
        d.in_paste,
        d.pending.len() == 0,
        body.len() > 0,
        content_is_free(body),
    ensures
        ({
            let (n, e, after) = one(d, body + paste_terminator() + rest);
            &&& n == body.len() + 6
            &&& e == Some(EventView::PasteChunk(body))
            &&& !after.in_paste
            &&& after.pending == seq![EventView::PasteEnd]
        }),
{
    let s = body + paste_terminator() + rest;
    lemma_terminator_behind(body, rest);
    assert(s.subrange(0, body.len() as int) =~= body);
    assert(d.pending.push(EventView::PasteEnd) =~= seq![EventView::PasteEnd]);
}

/// The decoder that owns its buffer delivers a paste verbatim too, whatever it holds but
/// the terminator: one chunk, the end of the paste, and then what follows it.
pub proof fn law_buffered_paste_is_verbatim(d: DecoderView, body: Seq<u8>, rest: Seq<u8>)
    requires
        d.in_paste,
        d.pending.len() == 0,
        d.buf == body + paste_terminator() + rest,
        content_is_free(body),
    ensures
        ({
            let after = DecoderView { buf: rest, in_paste: false, ..d };
            &&& run(d).0 == chunk(body) + seq![EventView::PasteEnd] + run(after).0
            &&& run(d).1 == run(after).1
        }),
{
    let n = body.len() as int;
    lemma_terminator_behind(body, rest);
    assert(d.buf.subrange(0, n) =~= body);
    assert(skip(d.buf, n + 6) =~= rest);
}

} // verus!
