//! What one attempt to parse the front of the input yields.

use crate::event::decode::win32::Win32State;
use crate::event::{Event, EventView};
use vstd::prelude::*;

verus! {

/// The outcome of parsing the front of the input.
pub enum ParseResult {
    /// An event, and how many bytes it took.
    Event(Event, usize),
    /// The input may still grow into a sequence.
    Incomplete,
    /// This many bytes carry no event.
    Skip(usize),
    /// A Windows input packet: the event it completes, if any, how many bytes it
    /// took, and the packet state after it.
    Packet(Option<Event>, usize, Win32State),
}

/// A [`ParseResult`] over event views.
#[verifier::ext_equal]
pub enum Parsed {
    Event(EventView, int),
    Incomplete,
    Skip(int),
    Packet(Option<EventView>, int, Win32State),
}

/// The view of an optional event.
pub open spec fn optional_view(e: Option<Event>) -> Option<EventView> {
    match e {
        Some(e) => Some(e@),
        None => None,
    }
}

impl View for ParseResult {
    type V = Parsed;

    open spec fn view(&self) -> Parsed {
        match self {
            ParseResult::Event(e, n) => Parsed::Event(e@, *n as int),
            ParseResult::Incomplete => Parsed::Incomplete,
            ParseResult::Skip(n) => Parsed::Skip(*n as int),
            ParseResult::Packet(e, n, s) => Parsed::Packet(optional_view(*e), *n as int, *s),
        }
    }
}

/// How many bytes an outcome takes off the input.
pub open spec fn taken(p: Parsed) -> int {
    match p {
        Parsed::Event(_, n) => n,
        Parsed::Incomplete => 0,
        Parsed::Skip(n) => n,
        Parsed::Packet(_, n, _) => n,
    }
}

/// An outcome that is final takes at least one byte and stays in the input.
pub open spec fn within(p: Parsed, len: nat) -> bool {
    p is Incomplete || 1 <= taken(p) <= len
}

} // verus!
