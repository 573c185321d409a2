//! Byte-stream decoder for terminal events.
//!
//! [`Decoder`] translates terminal input bytes into [`Event`] values. It knows
//! the byte grammar for C0 controls, UTF-8 characters, 7-bit and 8-bit escape
//! sequence introducers, bracketed paste, mouse protocols, keyboard extensions,
//! terminal query replies, and Windows input-mode packets.
//!
//! ```text
//! bytes ──▶ ground byte dispatch
//!   │        ├─ UTF-8 / C0 controls ─────▶ KeyPress
//!   │        └─ ESC or C1 introducer ─┬──▶ CSI / SS3 / OSC / DCS / APC
//!   │                                  └──▶ Alt-key or pending ESC
//!   └─ paste mode ───────────────────────▶ PasteChunk … PasteEnd
//! ```
//!
//! Use [`Decoder::parse`] when the decoder should retain incomplete bytes
//! between calls, and [`Decoder::parse_one`] when the caller owns the buffer and
//! wants one event at a time.
//!
//! Escape-timeout policy is outside the normal parse path. A lone `ESC` or an
//! incomplete C1 introducer is incomplete until the caller decides that the
//! deadline has expired, and then calls [`Decoder::drain`] or
//! [`Decoder::expire_leading`]. During bracketed paste, bytes are streamed as raw
//! [`Event::PasteChunk`] payloads.

pub mod c1;
pub mod csi;
pub mod flags;
pub mod ground;
pub mod key_reports;
pub mod keys;
pub mod laws;
pub mod mouse_reports;
pub mod packets;
pub mod params;
pub mod replies;
pub mod result;
pub mod round_trip;
pub mod sequences;
pub mod ss3;
pub mod stream;
pub mod strings;
pub mod text;
pub mod utf8;
pub mod win32;

pub use flags::DecoderFlags;

use crate::bytes::{append, copy_range, drop_front, ESC};
use crate::event::decode::csi::Reading;
use crate::event::decode::ground::{c1_key, escape_press, make_c1_key, try_parse};
use crate::event::decode::keys::is_c1_introducer;
use crate::event::decode::result::ParseResult;
use crate::event::decode::stream::{
    chunk, fed, first_of, flatten, lemma_step, lemma_terminator_from, one,
    one_in_paste, paste_terminator, resolved, run, skip, step, terminates_at, terminator_from,
    DecoderView,
};
use crate::event::decode::win32::Win32State;
use crate::event::key::{key_of, Key, KeyCode, KeyModifiers};
use crate::event::{events_view, lemma_multi_view, Event, EventView};
use std::collections::VecDeque;
use vstd::prelude::*;

verus! {

/// Stateful byte parser that produces [`Event`] values.
///
/// `Decoder` can either own its pending bytes through [`Decoder::parse`] or be
/// driven by an external buffer through [`Decoder::parse_one`]. It tracks state
/// that is meaningful across calls: bracketed paste mode, pending events from a
/// sequence that expands to several events, UTF-8 mouse mode, and the state of
/// the Windows input packets.
///
/// The decoder does not perform I/O and does not implement wall-clock timeout
/// policy by itself.
pub struct Decoder {
    reading: Reading,
    in_paste: bool,
    pending: VecDeque<Event>,
    buf: Vec<u8>,
}

impl View for Decoder {
    type V = DecoderView;

    closed spec fn view(&self) -> DecoderView {
        DecoderView {
            reading: self.reading,
            in_paste: self.in_paste,
            pending: events_view(self.pending@),
            buf: self.buf@,
        }
    }
}

/// The state of a new decoder.
pub open spec fn initial(flags: DecoderFlags) -> DecoderView {
    DecoderView {
        reading: Reading {
            flags,
            utf8_mouse: false,
            expired: false,
            win32: Win32State::initial(),
        },
        in_paste: false,
        pending: Seq::empty(),
        buf: Seq::empty(),
    }
}

/// What a leading byte stands for once it cannot begin a sequence anymore.
pub open spec fn expired_leading(b: u8, flags: DecoderFlags) -> Option<EventView> {
    if b == ESC {
        if flags.ctrl_open_bracket {
            Some(EventView::KeyPress(key_of(KeyCode::Char('['), KeyModifiers::ctrl())))
        } else {
            Some(escape_press(KeyModifiers::empty()))
        }
    } else if is_c1_introducer(b) {
        Some(EventView::KeyPress(c1_key(b)))
    } else {
        None
    }
}

impl Default for Decoder {
    fn default() -> (r: Self)
        ensures
            r@ == initial(DecoderFlags::empty()),
    {
        Decoder::new(DecoderFlags::empty())
    }
}

impl Decoder {
    /// Construct a decoder with the given behavior flags, outside paste mode,
    /// with UTF-8 mouse mode disabled and no buffered input.
    pub fn new(flags: DecoderFlags) -> (r: Self)
        ensures
            r@ == initial(flags),
    {
        let r = Decoder {
            reading: Reading {
                flags,
                utf8_mouse: false,
                expired: false,
                win32: Win32State::initial(),
            },
            in_paste: false,
            pending: VecDeque::new(),
            buf: Vec::new(),
        };
        assert(r@.pending =~= Seq::empty());
        r
    }

    /// Whether the decoder holds an unfinished escape sequence: buffered input
    /// that begins with `ESC` or an 8-bit introducer, outside a paste.
    pub fn has_pending(&self) -> (r: bool)
        ensures
            r == (self@.buf.len() > 0 && !self@.in_paste && (self@.buf[0] == ESC
                || is_c1_introducer(self@.buf[0]))),
    {
        if self.buf.len() == 0 || self.in_paste {
            return false;
        }
        let b: u8 = self.buf[0];
        b == ESC || is_c1_introducer(b)
    }

    /// Resolve any buffered partial sequence as best-effort events.
    ///
    /// A leading `ESC` is emitted as Escape and the remaining bytes are read
    /// again, so `ESC [` becomes Escape and `[`. While a bracketed paste is in
    /// progress this does nothing: paste content may span arbitrary time.
    pub fn drain(&mut self) -> (r: Vec<Event>)
        ensures
            old(self)@.in_paste || old(self)@.buf.len() == 0 ==> r@.len() == 0 && final(self)@
                == old(self)@,
            !old(self)@.in_paste && old(self)@.buf.len() > 0 ==> ({
                let (events, after) = run(with_expired(old(self)@, true));
                events_view(r@) == events && final(self)@ == with_expired(after, false)
            }),
    {
        if self.in_paste || self.buf.len() == 0 {
            return Vec::new();
        }
        let ghost before = self@;
        self.reading.expired = true;
        let no_data: [u8; 0] = [];
        let events = self.parse(&no_data);
        proof {
            assert(fed(with_expired(before, true), no_data@) =~= with_expired(before, true));
        }
        self.reading.expired = false;
        events
    }

    /// Enable or disable UTF-8 mouse decoding (xterm mode 1005).
    pub fn set_utf8_mouse(&mut self, enabled: bool)
        ensures
            final(self)@ == (DecoderView {
                reading: Reading { utf8_mouse: enabled, ..old(self)@.reading },
                ..old(self)@
            }),
    {
        self.reading.utf8_mouse = enabled;
    }

    /// Toggle the escape-timeout flag. While it is set, the decoder commits
    /// partial escape sequences as best-effort key events.
    pub fn set_expired(&mut self, value: bool)
        ensures
            final(self)@ == with_expired(old(self)@, value),
    {
        self.reading.expired = value;
    }

    /// Pull one event from `data` and return how many bytes it took.
    ///
    /// * `(n, Some(event))`: the caller should advance its buffer by `n` bytes.
    /// * `(0, None)`: the buffer holds a partial sequence; retry with more input.
    /// * `(n, None)` with `n > 0`: `n` bytes carried no event.
    ///
    /// The decoder does not retain `data` between calls. Inside a bracketed
    /// paste, content streams as [`Event::PasteChunk`].
    pub fn parse_one(&mut self, data: &[u8]) -> (r: (usize, Option<Event>))
        ensures
            ({
                let (n, event, after) = one(old(self)@, data@);
                r.0 == n && result::optional_view(r.1) == event && final(self)@ == after
            }),
            r.0 <= data@.len(),
    {
        let ghost before = self@;
        if let Some(event) = self.pending.pop_front() {
            assert(self@.pending =~= before.pending.drop_first());
            return (0, Some(event));
        }
        assert(before.pending.len() == 0);
        assert(self@ =~= before);
        if data.len() == 0 {
            return (0, None);
        }
        if self.in_paste {
            return self.parse_paste_chunk(data);
        }
        match try_parse(&self.reading, data) {
            ParseResult::Event(event, n) => {
                self.in_paste = matches!(event, Event::PasteStart);
                let first = self.hand_out(event);
                (n, first)
            },
            ParseResult::Packet(event, n, state) => {
                self.reading.win32 = state;
                match event {
                    Some(event) => {
                        let first = self.hand_out(event);
                        (n, first)
                    },
                    None => (n, None),
                }
            },
            ParseResult::Skip(n) => (n, None),
            ParseResult::Incomplete => (0, None),
        }
    }

    /// Hand out the first event of a group, or the one event, and queue the rest.
    fn hand_out(&mut self, event: Event) -> (r: Option<Event>)
        ensures
            (result::optional_view(r), final(self)@) == first_of(old(self)@, event@),
    {
        let ghost before = self@;
        match event {
            Event::Multi(group) => {
                proof {
                    lemma_multi_view(group);
                }
                let mut rest = group;
                if rest.len() == 0 {
                    return None;
                }
                let ghost all = events_view(rest@);
                let first = rest.remove(0);
                assert(events_view(rest@) =~= all.drop_first());
                self.queue(rest);
                Some(first)
            },
            other => {
                proof {
                    let group = seq![other@];
                    assert(before.pending + group.drop_first() =~= before.pending);
                }
                Some(other)
            },
        }
    }

    /// Queue events to be handed out before any further input is read.
    fn queue(&mut self, events: Vec<Event>)
        ensures
            final(self)@ == (DecoderView {
                pending: old(self)@.pending + events_view(events@),
                ..old(self)@
            }),
    {
        let ghost before = self@;
        let ghost all = events_view(events@);
        let mut rest = events;
        while rest.len() > 0
            invariant
                before.pending + all == self@.pending + events_view(rest@),
                self@ == (DecoderView { pending: self@.pending, ..before }),
            decreases rest@.len(),
        {
            let ghost shown = self@.pending;
            let ghost left = events_view(rest@);
            let event = rest.remove(0);
            let ghost e = event@;
            self.pending.push_back(event);
            proof {
                assert(events_view(rest@) =~= left.drop_first());
                assert(self@.pending =~= shown.push(e));
                assert(self@.pending + events_view(rest@) =~= shown + left);
            }
        }
        assert(self@.pending + events_view(rest@) =~= self@.pending);
    }

    /// Stream the content of a paste.
    fn parse_paste_chunk(&mut self, data: &[u8]) -> (r: (usize, Option<Event>))
        ensures
            ({
                let (n, event, after) = one_in_paste(old(self)@, data@);
                r.0 == n && result::optional_view(r.1) == event && final(self)@ == after
            }),
            r.0 <= data@.len(),
    {
        let ghost before = self@;
        let at: usize = find_paste_terminator(data);
        proof {
            lemma_terminator_from(data@, 0);
        }
        if data.len() - at < 6 {
            if at == 0 {
                return (0, None);
            }
            return (at, Some(Event::PasteChunk(copy_range(data, 0, at))));
        }
        self.in_paste = false;
        if at == 0 {
            return (6, Some(Event::PasteEnd));
        }
        self.pending.push_back(Event::PasteEnd);
        assert(self@.pending =~= before.pending.push(EventView::PasteEnd));
        (at + 6, Some(Event::PasteChunk(copy_range(data, 0, at))))
    }

    /// `true` while the decoder is between `PasteStart` and `PasteEnd`.
    pub fn in_paste(&self) -> (r: bool)
        ensures
            r == self@.in_paste,
    {
        self.in_paste
    }

    /// Force-exit bracketed paste mode. Returns the [`Event::PasteEnd`] for the
    /// caller to enqueue, or `None` when no paste was in progress.
    pub fn end_paste(&mut self) -> (r: Option<Event>)
        ensures
            result::optional_view(r) == (if old(self)@.in_paste {
                Some(EventView::PasteEnd)
            } else {
                None
            }),
            final(self)@ == (DecoderView { in_paste: false, ..old(self)@ }),
    {
        if self.in_paste {
            self.in_paste = false;
            Some(Event::PasteEnd)
        } else {
            None
        }
    }

    /// What a leading byte stands for once the caller has decided that it cannot
    /// begin a sequence anymore; the caller should advance its buffer by one
    /// byte. `None` for a byte that is neither `ESC` nor an 8-bit introducer.
    pub fn expire_leading(&self, b0: u8) -> (r: Option<Event>)
        ensures
            result::optional_view(r) == expired_leading(b0, self@.reading.flags),
    {
        if b0 == ESC {
            let key = if self.reading.flags.ctrl_open_bracket {
                Key::of(KeyCode::Char('['), KeyModifiers::ctrl())
            } else {
                Key::of(KeyCode::Escape, KeyModifiers::empty())
            };
            Some(Event::KeyPress(key))
        } else if is_c1_introducer(b0) {
            Some(Event::KeyPress(make_c1_key(b0)))
        } else {
            None
        }
    }

    /// Feed bytes into the decoder's buffer and return all complete events.
    ///
    /// Any incomplete prefix is retained for the next call. Unknown or invalid
    /// bytes are surfaced as unknown events or skipped.
    pub fn parse(&mut self, data: &[u8]) -> (r: Vec<Event>)
        ensures
            (events_view(r@), final(self)@) == run(fed(old(self)@, data@)),
    {
        append(&mut self.buf, data);
        let ghost start = self@;
        assert(start =~= fed(old(self)@, data@));
        let mut events: Vec<Event> = Vec::new();
        assert(events_view(events@) + run(self@).0 =~= run(start).0);
        loop
            invariant_except_break
                events_view(events@) + run(self@).0 == run(start).0,
                run(self@).1 == run(start).1,
            ensures
                (events_view(events@), self@) == run(start),
            decreases self@.buf.len(), self@.pending.len(),
        {
            let ghost shown = events_view(events@);
            let ghost now = self@;
            if let Some(event) = self.pending.pop_front() {
                let ghost e = event@;
                events.push(event);
                proof {
                    assert(self@.pending =~= now.pending.drop_first());
                    assert(self@ =~= (DecoderView { pending: now.pending.drop_first(), ..now }));
                    assert(events_view(events@) =~= shown.push(e));
                    assert(events_view(events@) + run(self@).0 =~= shown + run(now).0);
                }
                continue;
            }
            assert(self@ =~= now);
            assert(now.pending.len() == 0);
            if self.buf.len() == 0 {
                assert(shown + run(now).0 =~= shown);
                break;
            }
            if self.in_paste {
                let at: usize = find_paste_terminator(self.buf.as_slice());
                let terminated = self.buf.len() - at >= 6;
                self.take_chunk(at, &mut events);
                if !terminated {
                    break;
                }
                drop_front(&mut self.buf, 6);
                self.in_paste = false;
                let ghost mid = events_view(events@);
                events.push(Event::PasteEnd);
                proof {
                    assert(self@.buf =~= skip(now.buf, at + 6));
                    assert(self@ =~= (DecoderView {
                        buf: skip(now.buf, at + 6),
                        in_paste: false,
                        ..now
                    }));
                    assert(events_view(events@) =~= mid.push(EventView::PasteEnd));
                    assert(events_view(events@) + run(self@).0 =~= shown + run(now).0);
                }
                continue;
            }
            proof {
                lemma_step(now);
            }
            match try_parse(&self.reading, self.buf.as_slice()) {
                ParseResult::Event(event, n) => {
                    self.in_paste = matches!(event, Event::PasteStart);
                    push_flat(&mut events, event);
                    drop_front(&mut self.buf, n);
                },
                ParseResult::Packet(event, n, state) => {
                    self.reading.win32 = state;
                    if let Some(event) = event {
                        push_flat(&mut events, event);
                    } else {
                        assert(events_view(events@) =~= shown + Seq::<EventView>::empty());
                    }
                    drop_front(&mut self.buf, n);
                },
                ParseResult::Skip(n) => {
                    drop_front(&mut self.buf, n);
                    assert(events_view(events@) =~= shown + Seq::<EventView>::empty());
                },
                ParseResult::Incomplete => {
                    if !self.reading.expired {
                        assert(shown + run(now).0 =~= shown);
                        break;
                    }
                    let n: usize = self.resolve_leading(&mut events);
                    drop_front(&mut self.buf, n);
                },
            }
            proof {
                let (first, next) = step(now)->0;
                assert(self@ =~= next);
                assert(events_view(events@) =~= shown + first);
                assert(events_view(events@) + run(self@).0 =~= shown + run(now).0);
            }
        }
        events
    }

    /// Move the first `at` buffered bytes into a chunk of paste content.
    fn take_chunk(&mut self, at: usize, events: &mut Vec<Event>)
        requires
            at <= old(self)@.buf.len(),
        ensures
            final(self)@ == (DecoderView { buf: skip(old(self)@.buf, at as int), ..old(self)@ }),
            events_view(final(events)@) == events_view(old(events)@) + chunk(
                old(self)@.buf.subrange(0, at as int),
            ),
    {
        let ghost shown = events_view(events@);
        if at > 0 {
            let bytes = copy_range(self.buf.as_slice(), 0, at);
            let ghost b = bytes@;
            events.push(Event::PasteChunk(bytes));
            assert(events_view(events@) =~= shown + seq![EventView::PasteChunk(b)]);
        } else {
            assert(events_view(events@) =~= shown + Seq::<EventView>::empty());
        }
        drop_front(&mut self.buf, at);
    }

    /// Resolve the first byte of a partial sequence whose deadline has passed, and
    /// return how many bytes that takes.
    fn resolve_leading(&self, events: &mut Vec<Event>) -> (r: usize)
        requires
            self@.buf.len() > 0,
        ensures
            r == resolved(self@.buf).1,
            1 <= r <= self@.buf.len(),
            events_view(final(events)@) == events_view(old(events)@) + seq![
                resolved(self@.buf).0,
            ],
    {
        let ghost shown = events_view(events@);
        let b: u8 = self.buf[0];
        let n: usize;
        if b == ESC {
            events.push(Event::KeyPress(Key::of(KeyCode::Escape, KeyModifiers::empty())));
            n = 1;
        } else if is_c1_introducer(b) {
            events.push(Event::KeyPress(make_c1_key(b)));
            n = 1;
        } else {
            let all = copy_range(self.buf.as_slice(), 0, self.buf.len());
            assert(all@ =~= self@.buf);
            events.push(Event::Unknown(all));
            n = self.buf.len();
        }
        assert(events_view(events@) =~= shown + seq![resolved(self@.buf).0]);
        n
    }
}

/// The state with the escape-timeout flag set or cleared.
pub open spec fn with_expired(d: DecoderView, expired: bool) -> DecoderView {
    DecoderView { reading: Reading { expired, ..d.reading }, ..d }
}

/// Append an event, or every event of a group.
fn push_flat(events: &mut Vec<Event>, event: Event)
    ensures
        events_view(final(events)@) == events_view(old(events)@) + flatten(event@),
{
    let ghost shown = events_view(events@);
    match event {
        Event::Multi(group) => {
            proof {
                lemma_multi_view(group);
            }
            let ghost all = events_view(group@);
            let mut rest = group;
            let ghost added = rest@;
            let ghost before = events@;
            events.append(&mut rest);
            assert(events@ == before + added);
            assert(events_view(events@) =~= shown + all);
        },
        other => {
            let ghost e = other@;
            events.push(other);
            assert(events_view(events@) =~= shown + seq![e]);
        },
    }
}

/// Where the paste terminator is, or may still be arriving, in `data`.
fn find_paste_terminator(data: &[u8]) -> (r: usize)
    ensures
        r == terminator_from(data@, 0),
        r <= data@.len(),
{
    let mut i: usize = 0;
    while i < data.len()
        invariant
            0 <= i <= data@.len(),
            terminator_from(data@, 0) == terminator_from(data@, i as int),
        decreases data@.len() - i,
    {
        if is_paste_terminator(data, i) {
            return i;
        }
        i += 1;
    }
    i
}

/// Whether the bytes from `i` on, as far as they are there, are those of the paste
/// terminator.
fn is_paste_terminator(data: &[u8], i: usize) -> (r: bool)
    requires
        i <= data@.len(),
    ensures
        r == terminates_at(data@, i as int),
{
    let terminator: [u8; 6] = [0x1b, 0x5b, 0x32, 0x30, 0x31, 0x7e];
    assert(terminator@ =~= paste_terminator());
    let mut k: usize = 0;
    while k < 6 && k < data.len() - i
        invariant
            k <= 6,
            i + k <= data@.len(),
            terminator@ == paste_terminator(),
            forall|j: int| 0 <= j < k ==> #[trigger] data@[i + j] == paste_terminator()[j],
        decreases 6 - k,
    {
        if data[i + k] != terminator[k] {
            assert(data@[i + k] != paste_terminator()[k as int]);
            return false;
        }
        k += 1;
    }
    true
}

} // verus!
