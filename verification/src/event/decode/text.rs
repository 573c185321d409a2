//! Texts and numbers inside string sequences.

use vstd::prelude::*;
use vstd::utf8::*;

verus! {

/// What `String::from_utf8_lossy` makes of a byte string.
pub uninterp spec fn lossy_text(bytes: Seq<u8>) -> Seq<char>;

/// Calls `String::from_utf8_lossy`. Valid UTF-8 is decoded as it stands; of
/// other bytes only that the result is a function of them is claimed.
#[verifier::external_body]
pub(crate) fn text_of(bytes: &[u8]) -> (r: String)
    ensures
        r@ == lossy_text(bytes@),
        valid_utf8(bytes@) ==> r@ == decode_utf8(bytes@),
{
    String::from_utf8_lossy(bytes).into_owned()
}

/// The value of a hexadecimal digit.
#[verifier::allow_in_spec]
pub fn hex_digit(b: u8) -> Option<u8>
    returns
        (if 0x30 <= b && b <= 0x39 {
            Some((b - 0x30) as u8)
        } else if 0x41 <= b && b <= 0x46 {
            Some((b - 0x37) as u8)
        } else if 0x61 <= b && b <= 0x66 {
            Some((b - 0x57) as u8)
        } else {
            None
        }),
{
    if b >= 0x30 && b <= 0x39 {
        Some(b - 0x30)
    } else if b >= 0x41 && b <= 0x46 {
        Some(b - 0x37)
    } else if b >= 0x61 && b <= 0x66 {
        Some(b - 0x57)
    } else {
        None
    }
}

/// Whether every byte of `s` is a hexadecimal digit.
pub open spec fn all_hex(s: Seq<u8>) -> bool {
    forall|i: int| 0 <= i < s.len() ==> hex_digit(#[trigger] s[i]) is Some
}

/// The number that a run of hexadecimal digits spells.
pub open spec fn hex_number(s: Seq<u8>) -> int
    decreases s.len(),
{
    if s.len() == 0 {
        0
    } else {
        16 * hex_number(s.drop_last()) + hex_digit(s.last())->0
    }
}

/// The bytes that pairs of hexadecimal digits spell.
pub open spec fn hex_bytes(s: Seq<u8>) -> Option<Seq<u8>> {
    if s.len() % 2 == 0 && all_hex(s) {
        Some(
            Seq::new(
                s.len() / 2,
                |i: int| (16 * hex_digit(s[2 * i])->0 + hex_digit(s[2 * i + 1])->0) as u8,
            ),
        )
    } else {
        None
    }
}

/// The bytes of an optional byte vector.
pub open spec fn optional_bytes(v: Option<Vec<u8>>) -> Option<Seq<u8>> {
    match v {
        Some(v) => Some(v@),
        None => None,
    }
}

/// Compute [`hex_bytes`].
pub fn read_hex_bytes(s: &[u8]) -> (r: Option<Vec<u8>>)
    ensures
        optional_bytes(r) == hex_bytes(s@),
{
    if s.len() % 2 != 0 {
        return None;
    }
    let mut bytes: Vec<u8> = Vec::new();
    let mut i: usize = 0;
    while i < s.len()
        invariant
            0 <= i <= s@.len(),
            i % 2 == 0,
            s@.len() % 2 == 0,
            forall|k: int| 0 <= k < i ==> hex_digit(#[trigger] s@[k]) is Some,
            bytes@.len() == i / 2,
            forall|k: int|
                0 <= k < i / 2 ==> #[trigger] bytes@[k] == (16 * hex_digit(s@[2 * k])->0
                    + hex_digit(s@[2 * k + 1])->0) as u8,
        decreases s@.len() - i,
    {
        match (hex_digit(s[i]), hex_digit(s[i + 1])) {
            (Some(h), Some(l)) => {
                bytes.push(16 * h + l);
            },
            _ => {
                assert(hex_digit(s@[i as int]) is None || hex_digit(s@[i + 1]) is None);
                return None;
            },
        }
        i += 2;
    }
    assert(all_hex(s@));
    assert(bytes@ =~= hex_bytes(s@)->0);
    Some(bytes)
}

/// An eight-bit color component written with one to four hexadecimal digits.
pub open spec fn color_component(s: Seq<u8>) -> Option<u8> {
    if !all_hex(s) {
        None
    } else if s.len() == 1 {
        Some((hex_number(s) * 17) as u8)
    } else if s.len() == 2 {
        Some(hex_number(s) as u8)
    } else if s.len() == 3 {
        Some((hex_number(s) / 16) as u8)
    } else if s.len() == 4 {
        Some((hex_number(s) / 256) as u8)
    } else {
        None
    }
}

/// Compute [`color_component`].
pub fn read_color_component(s: &[u8]) -> (r: Option<u8>)
    ensures
        r == color_component(s@),
{
    let n: usize = s.len();
    if n == 0 || n > 4 {
        return None;
    }
    let mut v: u32 = 0;
    let mut bound: u32 = 1;
    let mut i: usize = 0;
    while i < n
        invariant
            0 <= i <= n,
            n == s@.len(),
            n <= 4,
            v == hex_number(s@.subrange(0, i as int)),
            v < bound,
            bound == (if i == 0 {
                1u32
            } else if i == 1 {
                16
            } else if i == 2 {
                256
            } else if i == 3 {
                4096
            } else {
                65536
            }),
            forall|k: int| 0 <= k < i ==> hex_digit(#[trigger] s@[k]) is Some,
        decreases n - i,
    {
        proof {
            let next = s@.subrange(0, i + 1);
            assert(next.drop_last() =~= s@.subrange(0, i as int));
            assert(next.last() == s@[i as int]);
        }
        match hex_digit(s[i]) {
            Some(d) => {
                v = 16 * v + d as u32;
                bound = 16 * bound;
            },
            None => {
                assert(hex_digit(s@[i as int]) is None);
                return None;
            },
        }
        i += 1;
    }
    assert(s@.subrange(0, n as int) =~= s@);
    assert(all_hex(s@));
    Some(
        if n == 1 {
            (v * 17) as u8
        } else if n == 2 {
            v as u8
        } else if n == 3 {
            (v / 16) as u8
        } else {
            (v / 256) as u8
        },
    )
}

} // verus!
