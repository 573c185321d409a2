//! Byte sequences: searching, splitting, and decimal numbers.
//!
//! Every grammar in this crate is stated over `Seq<u8>`. The spec functions
//! here are the vocabulary those statements share; the executable functions
//! are the loops that compute them.

use vstd::prelude::*;
use vstd::slice::*;
use vstd::string::*;

verus! {

/// The `ESC` control byte.
pub const ESC: u8 = 0x1b;

/// Index of the first byte at or after `i` that satisfies `p`, or `s.len()`
/// when there is none.
pub open spec fn first_from(s: Seq<u8>, i: int, p: spec_fn(u8) -> bool) -> int
    decreases s.len() - i,
{
    if i >= s.len() {
        s.len() as int
    } else if p(s[i]) {
        i
    } else {
        first_from(s, i + 1, p)
    }
}

/// Matches exactly one byte value.
pub open spec fn equals_byte(b: u8) -> spec_fn(u8) -> bool {
    |x: u8| x == b
}

/// Index of the first occurrence of `b` in `s`, or `s.len()`.
pub open spec fn index_of(s: Seq<u8>, b: u8) -> int {
    first_from(s, 0, equals_byte(b))
}

/// The fields of `s` between occurrences of `sep`; always at least one.
pub open spec fn split(s: Seq<u8>, sep: u8) -> Seq<Seq<u8>>
    decreases s.len(),
{
    if s.len() == 0 {
        seq![Seq::<u8>::empty()]
    } else {
        let before = split(s.drop_last(), sep);
        if s.last() == sep {
            before.push(Seq::<u8>::empty())
        } else {
            before.update(before.len() - 1, before.last().push(s.last()))
        }
    }
}

/// Whether `b` is an ASCII decimal digit.
pub open spec fn is_digit(b: u8) -> bool {
    0x30 <= b <= 0x39
}

/// Whether `s` is a nonempty run of decimal digits.
pub open spec fn is_number(s: Seq<u8>) -> bool {
    s.len() > 0 && forall|i: int| 0 <= i < s.len() ==> is_digit(#[trigger] s[i])
}

/// The number that a run of decimal digits spells.
pub open spec fn decimal(s: Seq<u8>) -> nat
    decreases s.len(),
{
    if s.len() == 0 {
        0
    } else {
        10 * decimal(s.drop_last()) + (s.last() - 0x30) as nat
    }
}

/// The decimal digits of `n`, without leading zeros.
pub open spec fn digits(n: nat) -> Seq<u8>
    decreases n,
{
    if n < 10 {
        seq![(0x30 + n) as u8]
    } else {
        digits(n / 10).push((0x30 + n % 10) as u8)
    }
}

/// The bytes of `fields`, field by field.
pub open spec fn fields_view(fields: Seq<Vec<u8>>) -> Seq<Seq<u8>> {
    Seq::new(fields.len(), |i: int| fields[i]@)
}

/// Writing a number and reading it back gives the number.
pub proof fn lemma_decimal_of_digits(n: nat)
    ensures
        is_number(digits(n)),
        decimal(digits(n)) == n,
    decreases n,
{
    reveal_with_fuel(decimal, 2);
    if n < 10 {
        assert(digits(n).drop_last() =~= Seq::<u8>::empty());
    } else {
        lemma_decimal_of_digits(n / 10);
        assert(digits(n).drop_last() =~= digits(n / 10));
    }
}

/// A search never leaves the sequence.
pub proof fn lemma_first_from(s: Seq<u8>, i: int, p: spec_fn(u8) -> bool)
    requires
        0 <= i <= s.len(),
    ensures
        i <= first_from(s, i, p) <= s.len(),
        first_from(s, i, p) < s.len() ==> p(s[first_from(s, i, p)]),
        forall|k: int| i <= k < first_from(s, i, p) ==> !p(#[trigger] s[k]),
    decreases s.len() - i,
{
    if i < s.len() && !p(s[i]) {
        lemma_first_from(s, i + 1, p);
    }
}

/// A search that succeeds finds the same index when more bytes follow.
pub proof fn lemma_first_from_extend(s: Seq<u8>, t: Seq<u8>, i: int, p: spec_fn(u8) -> bool)
    requires
        0 <= i <= s.len(),
        first_from(s, i, p) < s.len(),
    ensures
        first_from(s + t, i, p) == first_from(s, i, p),
    decreases s.len() - i,
{
    assert(i < s.len());
    assert((s + t)[i] == s[i]);
    if !p(s[i]) {
        lemma_first_from_extend(s, t, i + 1, p);
    }
}

/// `split` yields at least one field.
pub proof fn lemma_split_nonempty(s: Seq<u8>, sep: u8)
    ensures
        split(s, sep).len() >= 1,
    decreases s.len(),
{
    if s.len() > 0 {
        lemma_split_nonempty(s.drop_last(), sep);
    }
}

/// A string without the separator is one field.
pub proof fn lemma_split_one(s: Seq<u8>, sep: u8)
    requires
        forall|i: int| 0 <= i < s.len() ==> #[trigger] s[i] != sep,
    ensures
        split(s, sep) == seq![s],
    decreases s.len(),
{
    if s.len() > 0 {
        lemma_split_one(s.drop_last(), sep);
        let front = seq![s.drop_last()];
        assert(s.drop_last().push(s.last()) =~= s);
        assert(split(s, sep) =~= seq![s]);
    } else {
        assert(s =~= Seq::<u8>::empty());
    }
}

/// Two strings without the separator, joined by it, are two fields.
pub proof fn lemma_split_two(a: Seq<u8>, b: Seq<u8>, sep: u8)
    requires
        forall|i: int| 0 <= i < a.len() ==> #[trigger] a[i] != sep,
        forall|i: int| 0 <= i < b.len() ==> #[trigger] b[i] != sep,
    ensures
        split(a + seq![sep] + b, sep) == seq![a, b],
    decreases b.len(),
{
    let s = a + seq![sep] + b;
    if b.len() == 0 {
        lemma_split_one(a, sep);
        assert(s.drop_last() =~= a);
        assert(b =~= Seq::<u8>::empty());
        assert(split(s, sep) =~= seq![a, b]);
    } else {
        lemma_split_two(a, b.drop_last(), sep);
        assert(s.drop_last() =~= a + seq![sep] + b.drop_last());
        assert(b.drop_last().push(b.last()) =~= b);
        assert(split(s, sep) =~= seq![a, b]);
    }
}

/// Nothing in `s` from `i` on is matched before index `k`, which is.
pub proof fn lemma_first_from_is(s: Seq<u8>, i: int, k: int, p: spec_fn(u8) -> bool)
    requires
        0 <= i <= k <= s.len(),
        forall|j: int| i <= j < k ==> !p(#[trigger] s[j]),
        k < s.len() ==> p(s[k]),
    ensures
        first_from(s, i, p) == k,
    decreases k - i,
{
    if i < k {
        lemma_first_from_is(s, i + 1, k, p);
    }
}

/// A string without the separator, joined to another one by it, is one more field.
pub proof fn lemma_split_append(a: Seq<u8>, b: Seq<u8>, sep: u8)
    requires
        forall|i: int| 0 <= i < b.len() ==> #[trigger] b[i] != sep,
    ensures
        split(a + seq![sep] + b, sep) == split(a, sep).push(b),
    decreases b.len(),
{
    let s = a + seq![sep] + b;
    if b.len() == 0 {
        assert(s.drop_last() =~= a);
        assert(b =~= Seq::<u8>::empty());
    } else {
        lemma_split_append(a, b.drop_last(), sep);
        assert(s.drop_last() =~= a + seq![sep] + b.drop_last());
        assert(b.drop_last().push(b.last()) =~= b);
        assert(split(s, sep) =~= split(a, sep).push(b));
    }
}

/// Append `s` to `w`.
pub fn append(w: &mut Vec<u8>, s: &[u8])
    ensures
        final(w)@ == old(w)@ + s@,
{
    w.extend_from_slice(s);
    assert(w@ =~= old(w)@ + s@);
}

/// Append the UTF-8 bytes of `s` to `w`.
pub fn append_str(w: &mut Vec<u8>, s: &str)
    ensures
        final(w)@ == old(w)@ + s.spec_bytes(),
{
    append(w, s.as_bytes());
}

/// Append the decimal digits of `n` to `w`.
pub fn append_decimal(w: &mut Vec<u8>, n: u32)
    ensures
        final(w)@ == old(w)@ + digits(n as nat),
    decreases n,
{
    if n >= 10 {
        append_decimal(w, n / 10);
    }
    let d: u8 = 0x30 + (n % 10) as u8;
    w.push(d);
    assert(w@ =~= old(w)@ + digits(n as nat));
}

/// Copy `s[i..j]`.
pub fn copy_range(s: &[u8], i: usize, j: usize) -> (r: Vec<u8>)
    requires
        i <= j <= s@.len(),
    ensures
        r@ == s@.subrange(i as int, j as int),
{
    slice_to_vec(slice_subrange(s, i, j))
}

/// Remove the first `n` bytes of `v`.
pub fn drop_front(v: &mut Vec<u8>, n: usize)
    requires
        n <= old(v)@.len(),
    ensures
        final(v)@ == old(v)@.subrange(n as int, old(v)@.len() as int),
{
    let rest: Vec<u8> = copy_range(v.as_slice(), n, v.len());
    *v = rest;
}

/// Index of the first occurrence of `b` in `s`, or the length of `s`.
pub fn find_byte(s: &[u8], b: u8) -> (r: usize)
    ensures
        r == index_of(s@, b),
        r <= s@.len(),
{
    let mut i: usize = 0;
    while i < s.len() && s[i] != b
        invariant
            0 <= i <= s@.len(),
            index_of(s@, b) == first_from(s@, i as int, equals_byte(b)),
        decreases s@.len() - i,
    {
        i += 1;
    }
    i
}

/// Split `s` at every `sep`.
pub fn split_fields(s: &[u8], sep: u8) -> (r: Vec<Vec<u8>>)
    ensures
        fields_view(r@) == split(s@, sep),
{
    let mut fields: Vec<Vec<u8>> = Vec::new();
    let mut current: Vec<u8> = Vec::new();
    let mut i: usize = 0;
    while i < s.len()
        invariant
            0 <= i <= s@.len(),
            fields_view(fields@).push(current@) == split(s@.subrange(0, i as int), sep),
        decreases s@.len() - i,
    {
        let b: u8 = s[i];
        let ghost before = fields_view(fields@).push(current@);
        proof {
            let next = s@.subrange(0, i + 1);
            assert(next.drop_last() =~= s@.subrange(0, i as int));
            assert(next.last() == b);
        }
        if b == sep {
            fields.push(current);
            current = Vec::new();
            assert(fields_view(fields@) =~= before);
        } else {
            current.push(b);
            assert(fields_view(fields@).push(current@) =~= before.update(
                before.len() - 1,
                before.last().push(b),
            ));
        }
        i += 1;
    }
    let ghost before = fields_view(fields@).push(current@);
    fields.push(current);
    proof {
        assert(s@.subrange(0, s@.len() as int) =~= s@);
        assert(fields_view(fields@) =~= before);
    }
    fields
}

/// The value of a parameter field: a run of digits, clamped to `u32::MAX`;
/// anything else has no value.
pub open spec fn field_value(s: Seq<u8>) -> Option<u32> {
    if is_number(s) {
        Some(
            if decimal(s) <= u32::MAX {
                decimal(s) as u32
            } else {
                u32::MAX
            },
        )
    } else {
        None
    }
}

/// Compute [`field_value`].
pub fn read_number(s: &[u8]) -> (r: Option<u32>)
    ensures
        r == field_value(s@),
{
    if s.len() == 0 {
        return None;
    }
    let mut total: u32 = 0;
    let mut i: usize = 0;
    while i < s.len()
        invariant
            0 <= i <= s@.len(),
            forall|k: int| 0 <= k < i ==> is_digit(#[trigger] s@[k]),
            total == (if decimal(s@.subrange(0, i as int)) <= u32::MAX {
                decimal(s@.subrange(0, i as int)) as int
            } else {
                u32::MAX as int
            }),
        decreases s@.len() - i,
    {
        let b: u8 = s[i];
        if b < 0x30 || b > 0x39 {
            assert(!is_digit(s@[i as int]));
            return None;
        }
        proof {
            let next = s@.subrange(0, i + 1);
            assert(next.drop_last() =~= s@.subrange(0, i as int));
            assert(next.last() == b);
        }
        let wide: u64 = total as u64 * 10 + (b - 0x30) as u64;
        total = if wide > 0xffff_ffff { 0xffff_ffff } else { wide as u32 };
        i += 1;
    }
    proof {
        assert(s@.subrange(0, s@.len() as int) =~= s@);
    }
    Some(total)
}

/// The number that `s` spells, where it is a run of digits and fits `u32`.
pub open spec fn exact_number(s: Seq<u8>) -> Option<u32> {
    if is_number(s) && decimal(s) <= u32::MAX {
        Some(decimal(s) as u32)
    } else {
        None
    }
}

/// A longer run of digits spells no smaller number.
proof fn lemma_decimal_grows(s: Seq<u8>, i: int)
    requires
        0 <= i <= s.len(),
        forall|k: int| 0 <= k < s.len() ==> is_digit(#[trigger] s[k]),
    ensures
        decimal(s.subrange(0, i)) <= decimal(s),
    decreases s.len(),
{
    if i < s.len() {
        lemma_decimal_grows(s.drop_last(), i);
        assert(s.drop_last().subrange(0, i) =~= s.subrange(0, i));
        assert(is_digit(s[s.len() - 1]));
    } else {
        assert(s.subrange(0, i) =~= s);
    }
}

/// Compute [`exact_number`].
pub fn read_exact_number(s: &[u8]) -> (r: Option<u32>)
    ensures
        r == exact_number(s@),
{
    match read_number(s) {
        Some(v) => if v < 0xffff_ffff {
            Some(v)
        } else {
            read_largest(s)
        },
        None => None,
    }
}

/// [`exact_number`] where the value is at least the largest `u32`.
fn read_largest(s: &[u8]) -> (r: Option<u32>)
    requires
        is_number(s@),
        decimal(s@) >= u32::MAX,
    ensures
        r == exact_number(s@),
{
    let mut total: u64 = 0;
    let mut i: usize = 0;
    while i < s.len()
        invariant
            0 <= i <= s@.len(),
            is_number(s@),
            total == decimal(s@.subrange(0, i as int)),
            total <= u32::MAX,
        decreases s@.len() - i,
    {
        proof {
            let next = s@.subrange(0, i + 1);
            assert(next.drop_last() =~= s@.subrange(0, i as int));
            assert(next.last() == s@[i as int]);
            assert(is_digit(s@[i as int]));
            lemma_decimal_grows(s@, i + 1);
        }
        total = total * 10 + (s[i] - 0x30) as u64;
        if total > 0xffff_ffff {
            return None;
        }
        i += 1;
    }
    assert(s@.subrange(0, s@.len() as int) =~= s@);
    Some(total as u32)
}

/// Whether `needle` occurs in `hay`.
pub open spec fn occurs_in(hay: Seq<u8>, needle: Seq<u8>) -> bool {
    exists|i: int| 0 <= i && i + needle.len() <= hay.len() && #[trigger] hay.subrange(
        i,
        i + needle.len(),
    ) == needle
}

fn matches_at(hay: &[u8], needle: &[u8], i: usize) -> (r: bool)
    requires
        i + needle@.len() <= hay@.len(),
    ensures
        r == (hay@.subrange(i as int, i + needle@.len()) == needle@),
{
    let n: usize = hay.len();
    let mut k: usize = 0;
    while k < needle.len()
        invariant
            0 <= k <= needle@.len(),
            i + needle@.len() <= hay@.len(),
            n == hay@.len(),
            forall|j: int| 0 <= j < k ==> #[trigger] hay@[i + j] == needle@[j],
        decreases needle@.len() - k,
    {
        if hay[i + k] != needle[k] {
            assert(hay@.subrange(i as int, i + needle@.len())[k as int] != needle@[k as int]);
            return false;
        }
        k += 1;
    }
    let ghost part = hay@.subrange(i as int, i + needle@.len());
    assert forall|j: int| 0 <= j < needle@.len() implies part[j] == needle@[j] by {
        assert(hay@[i + j] == needle@[j]);
    }
    assert(part =~= needle@);
    true
}

/// Compute [`occurs_in`].
pub fn contains(hay: &[u8], needle: &[u8]) -> (r: bool)
    ensures
        r == occurs_in(hay@, needle@),
{
    let mut i: usize = 0;
    while i <= hay.len() && needle.len() <= hay.len() - i
        invariant
            0 <= i <= hay@.len() + 1,
            forall|j: int|
                0 <= j < i ==> #[trigger] hay@.subrange(j, j + needle@.len()) != needle@,
        decreases hay@.len() + 1 - i,
    {
        if matches_at(hay, needle, i) {
            return true;
        }
        if i == hay.len() {
            return false;
        }
        i += 1;
    }
    false
}

} // verus!
