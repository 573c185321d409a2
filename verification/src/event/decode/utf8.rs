//! Characters of the UTF-8 stream.

use crate::event::decode::result::{ParseResult, Parsed};
use crate::event::key::{key_of, scalar, Key, KeyCode, KeyModifiers};
use crate::event::{Event, EventView};
use vstd::prelude::*;
use vstd::utf8::encode_scalar;

verus! {

/// How many bytes a character takes whose first byte is `b`, or zero where no
/// multi-byte character begins with `b`.
pub open spec fn utf8_width(b: u8) -> int {
    if 0xc2 <= b <= 0xdf {
        2
    } else if 0xe0 <= b <= 0xef {
        3
    } else if 0xf0 <= b <= 0xf4 {
        4
    } else {
        0
    }
}

/// Whether `b` continues a multi-byte character.
pub open spec fn is_continuation(b: u8) -> bool {
    0x80 <= b <= 0xbf
}

/// The code point of a complete multi-byte character at the front of `s`.
pub open spec fn utf8_code_point(s: Seq<u8>) -> int {
    let w = utf8_width(s[0]);
    if w == 2 {
        (s[0] - 0xc0) * 64 + (s[1] - 0x80)
    } else if w == 3 {
        (s[0] - 0xe0) * 4096 + (s[1] - 0x80) * 64 + (s[2] - 0x80)
    } else {
        (s[0] - 0xf0) * 262144 + (s[1] - 0x80) * 4096 + (s[2] - 0x80) * 64 + (s[3] - 0x80)
    }
}

/// The least code point that needs `w` bytes.
pub open spec fn utf8_least(w: int) -> int {
    if w == 2 {
        0x80
    } else if w == 3 {
        0x800
    } else {
        0x1_0000
    }
}

/// The outcome of reading one multi-byte character at the front of `s`: its
/// code point and width; nothing where the bytes cannot be one; or the wish for
/// more bytes.
pub enum Utf8Char {
    Char(char, int),
    Incomplete,
    Malformed,
}

/// Read one multi-byte character at the front of `s`.
pub open spec fn utf8_char(s: Seq<u8>) -> Utf8Char {
    let w = utf8_width(s[0]);
    if w == 0 {
        Utf8Char::Malformed
    } else if exists|i: int| 1 <= i < w && i < s.len() && !is_continuation(#[trigger] s[i]) {
        Utf8Char::Malformed
    } else if s.len() < w {
        Utf8Char::Incomplete
    } else if utf8_code_point(s) >= utf8_least(w) && scalar(utf8_code_point(s)) is Some {
        Utf8Char::Char(scalar(utf8_code_point(s))->0, w)
    } else {
        Utf8Char::Malformed
    }
}

/// The outcome of parsing a byte of `0xa0` or above at the front of `s`.
pub open spec fn utf8_parsed(s: Seq<u8>) -> Parsed {
    match utf8_char(s) {
        Utf8Char::Char(c, w) => Parsed::Event(
            EventView::KeyPress(key_of(KeyCode::Char(c), KeyModifiers::empty())),
            w,
        ),
        Utf8Char::Incomplete => Parsed::Incomplete,
        Utf8Char::Malformed => Parsed::Skip(1),
    }
}

/// An executable [`Utf8Char`].
pub enum ReadChar {
    Char(char, usize),
    Incomplete,
    Malformed,
}

impl View for ReadChar {
    type V = Utf8Char;

    open spec fn view(&self) -> Utf8Char {
        match self {
            ReadChar::Char(c, w) => Utf8Char::Char(*c, *w as int),
            ReadChar::Incomplete => Utf8Char::Incomplete,
            ReadChar::Malformed => Utf8Char::Malformed,
        }
    }
}

/// Compute [`utf8_char`].
pub fn read_char(s: &[u8]) -> (r: ReadChar)
    requires
        s@.len() > 0,
    ensures
        r@ == utf8_char(s@),
{
    let b0: u8 = s[0];
    let w: usize = if b0 >= 0xc2 && b0 <= 0xdf {
        2
    } else if b0 >= 0xe0 && b0 <= 0xef {
        3
    } else if b0 >= 0xf0 && b0 <= 0xf4 {
        4
    } else {
        return ReadChar::Malformed;
    };
    let mut i: usize = 1;
    while i < w && i < s.len()
        invariant
            1 <= i <= w,
            s@.len() > 0,
            i <= s@.len(),
            w == utf8_width(s@[0]),
            forall|k: int| 1 <= k < i ==> is_continuation(#[trigger] s@[k]),
        decreases w - i,
    {
        let b: u8 = s[i];
        if b < 0x80 || b > 0xbf {
            assert(!is_continuation(s@[i as int]));
            return ReadChar::Malformed;
        }
        i += 1;
    }
    if s.len() < w {
        return ReadChar::Incomplete;
    }
    assert(is_continuation(s@[1]));
    let cp: u32 = if w == 2 {
        (b0 - 0xc0) as u32 * 64 + (s[1] - 0x80) as u32
    } else if w == 3 {
        assert(is_continuation(s@[2]));
        (b0 - 0xe0) as u32 * 4096 + (s[1] - 0x80) as u32 * 64 + (s[2] - 0x80) as u32
    } else {
        assert(is_continuation(s@[2]));
        assert(is_continuation(s@[3]));
        (b0 - 0xf0) as u32 * 262144 + (s[1] - 0x80) as u32 * 4096 + (s[2] - 0x80) as u32 * 64 + (
        s[3] - 0x80) as u32
    };
    let least: u32 = if w == 2 {
        0x80
    } else if w == 3 {
        0x800
    } else {
        0x1_0000
    };
    if cp < least {
        return ReadChar::Malformed;
    }
    match char::from_u32(cp) {
        Some(c) => ReadChar::Char(c, w),
        None => ReadChar::Malformed,
    }
}

/// Parse a byte of `0xa0` or above at the front of `buf`.
pub fn parse_utf8(buf: &[u8]) -> (r: ParseResult)
    requires
        buf@.len() > 0,
    ensures
        r@ == utf8_parsed(buf@),
{
    match read_char(buf) {
        ReadChar::Char(c, w) => ParseResult::Event(
            Event::KeyPress(Key::of(KeyCode::Char(c), KeyModifiers::empty())),
            w,
        ),
        ReadChar::Incomplete => ParseResult::Incomplete,
        ReadChar::Malformed => ParseResult::Skip(1),
    }
}

/// A character that is complete, or known to be malformed, is read the same way
/// when more bytes follow.
pub proof fn lemma_utf8_char_extend(s: Seq<u8>, t: Seq<u8>)
    requires
        s.len() > 0,
        !(utf8_char(s) is Incomplete),
    ensures
        utf8_char(s + t) == utf8_char(s),
{
    let w = utf8_width(s[0]);
    assert((s + t)[0] == s[0]);
    if w > 0 {
        if exists|i: int| 1 <= i < w && i < s.len() && !is_continuation(#[trigger] s[i]) {
            let i = choose|i: int| 1 <= i < w && i < s.len() && !is_continuation(#[trigger] s[i]);
            assert((s + t)[i] == s[i]);
        } else {
            assert forall|i: int| 1 <= i < w implies is_continuation(#[trigger] (s + t)[i]) by {
                assert((s + t)[i] == s[i]);
            }
            assert((s + t)[1] == s[1]);
            if w >= 3 {
                assert((s + t)[2] == s[2]);
            }
            if w == 4 {
                assert((s + t)[3] == s[3]);
            }
        }
    }
}

/// The bytes of an encoded character, as sums.
proof fn lemma_encoded_bytes(v: u32)
    by (bit_vector)
    ensures
        0x80u8 | (v & 0x3f) as u8 == 0x80 + v % 64,
        0x80u8 | ((v >> 6) & 0x3f) as u8 == 0x80 + (v / 64) % 64,
        0x80u8 | ((v >> 12) & 0x3f) as u8 == 0x80 + (v / 4096) % 64,
        v < 0x800 ==> 0xc0u8 | ((v >> 6) & 0x1f) as u8 == 0xc0 + v / 64,
        v < 0x1_0000 ==> 0xe0u8 | ((v >> 12) & 0x0f) as u8 == 0xe0 + v / 4096,
        v < 0x11_0000 ==> 0xf0u8 | ((v >> 18) & 0x7) as u8 == 0xf0 + v / 262144,
{
}

/// The sum of the parts of a code point of two, three or four bytes.
proof fn lemma_code_point_parts(v: int)
    requires
        0 <= v < 0x11_0000,
    ensures
        (v / 64) * 64 + v % 64 == v,
        (v / 4096) * 4096 + ((v / 64) % 64) * 64 + v % 64 == v,
        (v / 262144) * 262144 + ((v / 4096) % 64) * 4096 + ((v / 64) % 64) * 64 + v % 64 == v,
{
}

/// The encoding of a character beyond ASCII is read as that character.
pub proof fn lemma_encoding_is_read(c: char)
    requires
        c as u32 >= 0x80,
    ensures
        utf8_char(encode_scalar(c as u32)) == Utf8Char::Char(
            c,
            encode_scalar(c as u32).len() as int,
        ),
{
    let v = c as u32;
    lemma_encoded_bytes(v);
    lemma_code_point_parts(v as int);
    let s = encode_scalar(v);
    if v < 0x800 {
        assert(s.len() == 2 && utf8_width(s[0]) == 2);
    } else if v < 0x1_0000 {
        assert(s.len() == 3 && utf8_width(s[0]) == 3);
    } else {
        assert(s.len() == 4 && utf8_width(s[0]) == 4);
    }
    assert(utf8_code_point(s) == v);
    assert(scalar(v as int) == Some(c));
}

/// Every character beyond ASCII decodes from its UTF-8 encoding.
pub proof fn law_utf8_round_trip(c: char, rest: Seq<u8>)
    requires
        c as u32 >= 0x80,
    ensures
        utf8_parsed(encode_scalar(c as u32) + rest) == Parsed::Event(
            EventView::KeyPress(key_of(KeyCode::Char(c), KeyModifiers::empty())),
            encode_scalar(c as u32).len() as int,
        ),
{
    lemma_encoding_is_read(c);
    lemma_utf8_char_extend(encode_scalar(c as u32), rest);
}

} // verus!
