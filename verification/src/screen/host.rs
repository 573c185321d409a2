//! What can be told of the terminal from its environment.

use crate::bytes::{exact_number, read_exact_number};
use crate::screen::{Host, HostView};
use vstd::prelude::*;
use vstd::string::*;

verus! {

/// Whether `c` has the Unicode property `White_Space`.
#[verifier::allow_in_spec]
pub fn is_white_space(c: char) -> bool
    returns
        (('\u{9}' <= c && c <= '\u{d}') || c == ' ' || c == '\u{85}' || c == '\u{a0}' || c
            == '\u{1680}' || ('\u{2000}' <= c && c <= '\u{200a}') || c == '\u{2028}' || c
            == '\u{2029}' || c == '\u{202f}' || c == '\u{205f}' || c == '\u{3000}'),
{
    ('\u{9}' <= c && c <= '\u{d}') || c == ' ' || c == '\u{85}' || c == '\u{a0}' || c
        == '\u{1680}' || ('\u{2000}' <= c && c <= '\u{200a}') || c == '\u{2028}' || c
        == '\u{2029}' || c == '\u{202f}' || c == '\u{205f}' || c == '\u{3000}'
}

/// `s` without white space at its ends.
pub open spec fn trimmed(s: Seq<char>) -> Seq<char>
    decreases s.len(),
{
    if s.len() > 0 && is_white_space(s[0]) {
        trimmed(s.drop_first())
    } else if s.len() > 0 && is_white_space(s.last()) {
        trimmed(s.drop_last())
    } else {
        s
    }
}

/// `s` up to its first full stop.
pub open spec fn before_stop(s: Seq<char>) -> Seq<char>
    decreases s.len(),
{
    if s.len() == 0 || s[0] == '.' {
        Seq::empty()
    } else {
        seq![s[0]] + before_stop(s.drop_first())
    }
}

/// `s` without a leading plus sign.
pub open spec fn unsigned(s: Seq<char>) -> Seq<char> {
    if s.len() > 0 && s[0] == '+' {
        s.drop_first()
    } else {
        s
    }
}

/// Whether every character of `s` is a decimal digit.
pub open spec fn all_digits(s: Seq<char>) -> bool {
    forall|i: int| 0 <= i < s.len() ==> '0' <= #[trigger] s[i] && s[i] <= '9'
}

/// The number that `s` spells, with or without a plus sign.
pub open spec fn spelled_number(s: Seq<char>) -> Option<u32> {
    let digits = unsigned(s);
    if all_digits(digits) {
        exact_number(Seq::new(digits.len(), |i: int| digits[i] as u8))
    } else {
        None
    }
}

/// The major version in a version text: the number before the first full stop.
pub open spec fn major_version(text: Seq<char>) -> Option<u32> {
    spelled_number(trimmed(before_stop(text)))
}

/// Whether the terminal is Apple's `Terminal.app`.
pub open spec fn apple_terminal(host: HostView) -> bool {
    host.term_program == Some("Apple_Terminal"@)
}

/// The major version of Apple's `Terminal.app`.
pub open spec fn apple_version(host: HostView) -> Option<u32> {
    match host.term_program_version {
        Some(text) => major_version(text),
        None => None,
    }
}

/// The characters of `text` up to its first full stop.
fn chars_before_stop(text: &str) -> (r: Vec<char>)
    ensures
        r@ == before_stop(text@),
{
    let len: usize = text.unicode_len();
    let mut r: Vec<char> = Vec::new();
    let mut i: usize = 0;
    assert(text@.subrange(0, len as int) =~= text@);
    assert(r@ + before_stop(text@.subrange(0, len as int)) =~= before_stop(text@));
    while i < len
        invariant
            i <= len == text@.len(),
            r@ + before_stop(text@.subrange(i as int, len as int)) == before_stop(text@),
        decreases len - i,
    {
        let c = text.get_char(i);
        let ghost rest = text@.subrange(i as int, len as int);
        assert(rest[0] == c);
        if c == '.' {
            assert(r@ + Seq::<char>::empty() =~= r@);
            return r;
        }
        r.push(c);
        i += 1;
        assert(rest.drop_first() =~= text@.subrange(i as int, len as int));
        assert(r@ + before_stop(rest.drop_first()) =~= r@.drop_last() + before_stop(rest));
        assert(r@.drop_last() =~= r@.subrange(0, r@.len() - 1));
    }
    assert(r@ + before_stop(text@.subrange(len as int, len as int)) =~= r@);
    r
}

/// Where `s` begins and ends without white space at its ends.
fn trim_range(s: &[char]) -> (r: (usize, usize))
    ensures
        r.0 <= r.1 <= s@.len(),
        s@.subrange(r.0 as int, r.1 as int) == trimmed(s@),
{
    let mut from: usize = 0;
    let mut to: usize = s.len();
    assert(s@.subrange(0, to as int) =~= s@);
    while from < to && (is_white_space(s[from]) || is_white_space(s[to - 1]))
        invariant
            from <= to <= s@.len(),
            trimmed(s@.subrange(from as int, to as int)) == trimmed(s@),
        decreases to - from,
    {
        let ghost rest = s@.subrange(from as int, to as int);
        assert(rest[0] == s@[from as int] && rest.last() == s@[to - 1]);
        if is_white_space(s[from]) {
            from += 1;
            assert(rest.drop_first() =~= s@.subrange(from as int, to as int));
        } else {
            to -= 1;
            assert(rest.drop_last() =~= s@.subrange(from as int, to as int));
        }
    }
    proof {
        let rest = s@.subrange(from as int, to as int);
        assert(from < to ==> rest[0] == s@[from as int] && rest.last() == s@[to - 1]);
    }
    (from, to)
}

/// Compute [`spelled_number`] of a part of `s`.
fn read_spelled(s: &[char], from: usize, to: usize) -> (r: Option<u32>)
    requires
        from <= to <= s@.len(),
    ensures
        r == spelled_number(s@.subrange(from as int, to as int)),
{
    let ghost text = s@.subrange(from as int, to as int);
    let start = if from < to && s[from] == '+' {
        from + 1
    } else {
        from
    };
    let ghost digits = unsigned(text);
    assert(from < to ==> text[0] == s@[from as int]);
    assert(digits =~= s@.subrange(start as int, to as int));
    let mut bytes: Vec<u8> = Vec::new();
    let mut i: usize = start;
    while i < to
        invariant
            start <= i <= to <= s@.len(),
            bytes@.len() == i - start,
            digits == s@.subrange(start as int, to as int),
            digits == unsigned(text),
            text == s@.subrange(from as int, to as int),
            forall|k: int| 0 <= k < i - start ==> '0' <= #[trigger] digits[k] && digits[k] <= '9'
                && bytes@[k] == digits[k] as u8,
        decreases to - i,
    {
        let c = s[i];
        assert(digits[i - start] == c);
        if c < '0' || '9' < c {
            return None;
        }
        bytes.push(c as u8);
        i += 1;
    }
    assert(bytes@ =~= Seq::new(digits.len(), |k: int| digits[k] as u8));
    read_exact_number(bytes.as_slice())
}

impl Host {
    /// Whether the terminal is Apple's `Terminal.app`, which mishandles most queries.
    pub fn is_apple_terminal(&self) -> (r: bool)
        ensures
            r == apple_terminal(self@),
    {
        match &self.term_program {
            Some(name) => *name == "Apple_Terminal".to_owned(),
            None => false,
        }
    }

    /// The major version of Apple's `Terminal.app`, if it is known.
    pub fn apple_terminal_version(&self) -> (r: Option<u32>)
        ensures
            r == apple_version(self@),
    {
        match &self.term_program_version {
            Some(text) => {
                let chars = chars_before_stop(text.as_str());
                let (from, to) = trim_range(chars.as_slice());
                read_spelled(chars.as_slice(), from, to)
            },
            None => None,
        }
    }
}

} // verus!
