//! Queries: device attributes, names, key modes, sizes and capabilities.

use crate::ansi::osc::{hex_char, hex_pair, ST};
use crate::bytes::append_str;
use vstd::prelude::*;
use vstd::string::*;

verus! {

/// Request Primary Device Attributes: `ESC [ c`.
pub const REQUEST_PRIMARY_DA: &'static str = "\x1b[c";

/// Request the terminal name and version: `ESC [ > q`.
pub const REQUEST_XTVERSION: &'static str = "\x1b[>q";

/// Request the modifyOtherKeys state: `ESC [ ? 4 m`.
pub const QUERY_MODIFY_OTHER_KEYS: &'static str = "\x1b[?4m";

/// Reset modifyOtherKeys: `ESC [ > 4 m`.
pub const RESET_MODIFY_OTHER_KEYS: &'static str = "\x1b[>4m";

/// Select modifyOtherKeys mode 1: `ESC [ > 4 ; 1 m`.
pub const SET_MODIFY_OTHER_KEYS_1: &'static str = "\x1b[>4;1m";

/// Select modifyOtherKeys mode 2: `ESC [ > 4 ; 2 m`.
pub const SET_MODIFY_OTHER_KEYS_2: &'static str = "\x1b[>4;2m";

/// Request the window size in pixels: `ESC [ 14 t`.
pub const REQUEST_WINDOW_PIXEL_SIZE: &'static str = "\x1b[14t";

/// Request the cell size in pixels: `ESC [ 16 t`.
pub const REQUEST_CELL_PIXEL_SIZE: &'static str = "\x1b[16t";

/// The hexadecimal digits of a byte string.
pub open spec fn hex_encoded(s: Seq<u8>) -> Seq<u8>
    decreases s.len(),
{
    if s.len() == 0 {
        Seq::empty()
    } else {
        hex_encoded(s.drop_last()) + hex_pair(s.last())
    }
}

/// `DCS + q <name in hexadecimal> ST`.
pub open spec fn xtgettcap_bytes(name: Seq<u8>) -> Seq<u8> {
    "\x1bP+q".spec_bytes() + hex_encoded(name) + ST.spec_bytes()
}

/// Request a termcap capability by name (XTGETTCAP).
pub fn write_xtgettcap(w: &mut Vec<u8>, name: &str)
    ensures
        final(w)@ == old(w)@ + xtgettcap_bytes(name.spec_bytes()),
{
    append_str(w, "\x1bP+q");
    let ghost start = w@;
    let bytes = name.as_bytes();
    let mut i: usize = 0;
    assert(w@ =~= start + hex_encoded(bytes@.subrange(0, 0)));
    while i < bytes.len()
        invariant
            0 <= i <= bytes@.len(),
            w@ == start + hex_encoded(bytes@.subrange(0, i as int)),
        decreases bytes@.len() - i,
    {
        let ghost before = w@;
        let b: u8 = bytes[i];
        proof {
            let next = bytes@.subrange(0, i + 1);
            assert(next.drop_last() =~= bytes@.subrange(0, i as int));
            assert(next.last() == b);
        }
        w.push(hex_char(b / 16));
        w.push(hex_char(b % 16));
        assert(w@ =~= start + hex_encoded(bytes@.subrange(0, i + 1)));
        i += 1;
    }
    assert(bytes@.subrange(0, bytes@.len() as int) =~= bytes@);
    append_str(w, ST);
    assert(w@ =~= old(w)@ + xtgettcap_bytes(name.spec_bytes()));
}

} // verus!
