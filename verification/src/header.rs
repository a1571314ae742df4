//! The uncompressed object header `"<type> <size>\0"` that prefixes every
//! stored payload, with its exact encoder and decoder.
//!
//! Decoding scans only a short, fixed window for the terminating NUL, so a
//! header can be read from a decompressed prefix without inflating the rest
//! of the object.

use vstd::prelude::*;

verus! {

/// Headers are sought within this many decompressed bytes; a header is
/// always far shorter, so scanning past this bound is never useful.
pub const HEADER_WINDOW: usize = 512;

/// The closed set of object type tags.
#[derive(Copy, Clone, Debug, Hash, PartialEq, Eq, Structural)]
pub enum ObjectKind {
    Tree,
    Blob,
    Commit,
    Tag,
}

impl ObjectKind {
    /// The lowercase ASCII name of the tag as it appears in a header.
    pub open spec fn name_bytes(self) -> Seq<u8> {
        match self {
            ObjectKind::Tree => seq![116u8, 114u8, 101u8, 101u8],
            ObjectKind::Blob => seq![98u8, 108u8, 111u8, 98u8],
            ObjectKind::Commit => seq![99u8, 111u8, 109u8, 109u8, 105u8, 116u8],
            ObjectKind::Tag => seq![116u8, 97u8, 103u8],
        }
    }

    /// Append the tag's name to `out`.
    pub fn push_name(self, out: &mut Vec<u8>)
        ensures
            final(out)@ == old(out)@ + self.name_bytes(),
    {
        match self {
            ObjectKind::Tree => {
                out.push(116u8);
                out.push(114u8);
                out.push(101u8);
                out.push(101u8);
            },
            ObjectKind::Blob => {
                out.push(98u8);
                out.push(108u8);
                out.push(111u8);
                out.push(98u8);
            },
            ObjectKind::Commit => {
                out.push(99u8);
                out.push(111u8);
                out.push(109u8);
                out.push(109u8);
                out.push(105u8);
                out.push(116u8);
            },
            ObjectKind::Tag => {
                out.push(116u8);
                out.push(97u8);
                out.push(103u8);
            },
        }
        proof {
            assert(out@ =~= old(out)@ + self.name_bytes());
        }
    }
}

/// The tag named by `s`, if any.
pub open spec fn parse_kind(s: Seq<u8>) -> Option<ObjectKind> {
    if s == ObjectKind::Tree.name_bytes() {
        Some(ObjectKind::Tree)
    } else if s == ObjectKind::Blob.name_bytes() {
        Some(ObjectKind::Blob)
    } else if s == ObjectKind::Commit.name_bytes() {
        Some(ObjectKind::Commit)
    } else if s == ObjectKind::Tag.name_bytes() {
        Some(ObjectKind::Tag)
    } else {
        None
    }
}

/// Decimal digits

/// Whether `c` is an ASCII decimal digit.
pub open spec fn is_dec_digit(c: u8) -> bool {
    0x30 <= c <= 0x39
}

/// The decimal digit string of `n`, most significant first, no leading
/// zeros (except for `n == 0` itself).
pub open spec fn dec_digits(n: nat) -> Seq<u8>
    decreases n,
{
    if n < 10 {
        seq![(0x30 + n) as u8]
    } else {
        dec_digits(n / 10) + seq![(0x30 + n % 10) as u8]
    }
}

/// The number denoted by a digit string (meaningful when all characters
/// are digits).
pub open spec fn dec_val(s: Seq<u8>) -> nat
    decreases s.len(),
{
    if s.len() == 0 {
        0
    } else {
        dec_val(s.take(s.len() - 1)) * 10 + (if is_dec_digit(s.last()) {
            (s.last() - 0x30) as nat
        } else {
            0
        })
    }
}

/// The size denoted by a digit string: present when the string is a
/// non-empty run of digits whose value fits in a `u64`.
pub open spec fn parse_size(s: Seq<u8>) -> Option<u64> {
    if s.len() > 0 && (forall|i: int| 0 <= i < s.len() ==> is_dec_digit(#[trigger] s[i]))
        && dec_val(s) <= u64::MAX {
        Some(dec_val(s) as u64)
    } else {
        None
    }
}

pub proof fn lemma_dec_digits_are_digits(n: nat)
    ensures
        dec_digits(n).len() >= 1,
        forall|i: int| 0 <= i < dec_digits(n).len() ==> is_dec_digit(#[trigger] dec_digits(n)[i]),
    decreases n,
{
    if n >= 10 {
        lemma_dec_digits_are_digits(n / 10);
        assert forall|i: int| 0 <= i < dec_digits(n).len() implies is_dec_digit(
            #[trigger] dec_digits(n)[i],
        ) by {
            if i < dec_digits(n / 10).len() {
                assert(dec_digits(n)[i] == dec_digits(n / 10)[i]);
            }
        }
    }
}

/// Reading back the digit string of `n` yields `n`.
pub proof fn lemma_dec_round_trip(n: nat)
    ensures
        dec_val(dec_digits(n)) == n,
    decreases n,
{
    if n < 10 {
        let s = dec_digits(n);
        assert(s == seq![(0x30 + n) as u8]);
        assert(s.last() == (0x30 + n) as u8);
        assert(is_dec_digit(s.last()));
        assert(s.take(0) =~= Seq::<u8>::empty());
        assert(dec_val(s.take(0)) == 0);
        assert(dec_val(s) == 0 * 10 + ((s.last() - 0x30) as nat));
    } else {
        lemma_dec_round_trip(n / 10);
        let s = dec_digits(n);
        assert(s.take(s.len() - 1) =~= dec_digits(n / 10));
        assert(s.last() == (0x30 + n % 10) as u8);
        assert(dec_val(s) == dec_val(dec_digits(n / 10)) * 10 + n % 10);
        assert(n == (n / 10) * 10 + n % 10) by (nonlinear_arith);
    }
}

/// The digit string of a `u64` value is at most 20 characters.
pub proof fn lemma_dec_digits_len(n: nat, d: nat)
    requires
        n < pow10(d),
        d >= 1,
    ensures
        dec_digits(n).len() <= d,
    decreases n,
{
    if n >= 10 {
        lemma_dec_digits_len(n / 10, (d - 1) as nat);
    }
}

/// Ten to the power `d`.
pub open spec fn pow10(d: nat) -> nat
    decreases d,
{
    if d == 0 {
        1
    } else {
        10 * pow10((d - 1) as nat)
    }
}

/// Appending further digits never shrinks the value.
proof fn lemma_dec_val_prefix(s: Seq<u8>, i: int, j: int)
    requires
        0 <= i <= j <= s.len(),
    ensures
        dec_val(s.take(i)) <= dec_val(s.take(j)),
    decreases j - i,
{
    if i < j {
        lemma_dec_val_prefix(s, i, j - 1);
        assert(s.take(j).take(j - 1) =~= s.take(j - 1));
        assert(dec_val(s.take(j)) >= dec_val(s.take(j - 1)) * 10);
    }
}

/// Append the decimal digits of `n` to `out`.
pub fn push_decimal(n: u64, out: &mut Vec<u8>)
    ensures
        final(out)@ == old(out)@ + dec_digits(n as nat),
    decreases n,
{
    if n < 10 {
        out.push(0x30 + n as u8);
        proof {
            assert(out@ =~= old(out)@ + dec_digits(n as nat));
        }
    } else {
        push_decimal(n / 10, out);
        out.push(0x30 + (n % 10) as u8);
        proof {
            assert(out@ =~= old(out)@ + dec_digits(n as nat));
        }
    }
}

/// Parse the digit run `s[start..end]` as a size.
pub fn parse_size_bytes(s: &[u8], start: usize, end: usize) -> (r: Option<u64>)
    requires
        start <= end <= s@.len(),
    ensures
        r == parse_size(s@.subrange(start as int, end as int)),
{
    let ghost t = s@.subrange(start as int, end as int);
    if start == end {
        return None;
    }
    let mut val: u64 = 0;
    let mut i: usize = start;
    while i < end
        invariant
            start <= i <= end <= s@.len(),
            t == s@.subrange(start as int, end as int),
            forall|j: int| 0 <= j < i - start ==> is_dec_digit(#[trigger] t[j]),
            val == dec_val(t.take(i - start)),
            dec_val(t.take(i - start)) <= u64::MAX,
        decreases end - i,
    {
        let c = s[i];
        proof {
            assert(t[i - start] == s@[i as int]);
        }
        if c < 0x30 || c > 0x39 {
            return None;
        }
        let d = c - 0x30;
        proof {
            assert(t.take(i - start + 1).take(i - start) =~= t.take(i - start));
            assert(t.take(i - start + 1).last() == t[i - start]);
            assert(dec_val(t.take(i - start + 1)) == dec_val(t.take(i - start)) * 10 + d);
        }
        if val > (u64::MAX - d as u64) / 10 {
            proof {
                lemma_dec_val_prefix(t, i - start + 1, t.len() as int);
                assert(t.take(t.len() as int) =~= t);
            }
            return None;
        }
        val = val * 10 + d as u64;
        i += 1;
    }
    proof {
        assert(t.take(t.len() as int) =~= t);
        assert(t.take(i - start) =~= t);
    }
    Some(val)
}

/// The complete header for an object of tag `kind` and payload length
/// `size`: name, one space, decimal size, NUL.
pub open spec fn header_bytes(kind: ObjectKind, size: u64) -> Seq<u8> {
    kind.name_bytes() + seq![32u8] + dec_digits(size as nat) + seq![0u8]
}

/// Append `header_bytes(kind, size)` to `out`.
pub fn push_header(kind: ObjectKind, size: u64, out: &mut Vec<u8>)
    ensures
        final(out)@ == old(out)@ + header_bytes(kind, size),
{
    kind.push_name(out);
    out.push(32u8);
    push_decimal(size, out);
    out.push(0u8);
    proof {
        assert(out@ =~= old(out)@ + header_bytes(kind, size));
    }
}

/// The index of the first occurrence of `b` in `s`, or `-1`.
pub open spec fn first_index(s: Seq<u8>, b: u8) -> int
    decreases s.len(),
{
    if s.len() == 0 {
        -1
    } else if s[0] == b {
        0
    } else if first_index(s.skip(1), b) < 0 {
        -1
    } else {
        1 + first_index(s.skip(1), b)
    }
}

pub proof fn lemma_first_index_bounds(s: Seq<u8>, b: u8)
    ensures
        first_index(s, b) < s.len(),
        first_index(s, b) >= 0 ==> s[first_index(s, b)] == b && (forall|j: int|
            0 <= j < first_index(s, b) ==> s[j] != b),
        first_index(s, b) < 0 ==> (forall|j: int| 0 <= j < s.len() ==> s[j] != b),
    decreases s.len(),
{
    if s.len() > 0 && s[0] != b {
        lemma_first_index_bounds(s.skip(1), b);
        let fi = first_index(s, b);
        if first_index(s.skip(1), b) >= 0 {
            assert(s[fi] == s.skip(1)[fi - 1]);
            assert forall|j: int| 0 <= j < fi implies s[j] != b by {
                if j >= 1 {
                    assert(s.skip(1)[j - 1] == s[j]);
                }
            }
        } else {
            assert forall|j: int| 0 <= j < s.len() implies s[j] != b by {
                if j >= 1 {
                    assert(s.skip(1)[j - 1] == s[j]);
                }
            }
        }
    }
}

/// A position with the first-occurrence property pins `first_index` down.
pub proof fn lemma_first_index_is(s: Seq<u8>, b: u8, i: int)
    requires
        0 <= i < s.len(),
        s[i] == b,
        forall|j: int| 0 <= j < i ==> s[j] != b,
    ensures
        first_index(s, b) == i,
    decreases s.len(),
{
    if i > 0 {
        assert(s.skip(1)[i - 1] == s[i]);
        assert forall|j: int| 0 <= j < i - 1 implies s.skip(1)[j] != b by {
            assert(s.skip(1)[j] == s[j + 1]);
        }
        lemma_first_index_is(s.skip(1), b, i - 1);
    }
}

/// What decoding a header from the front of `u` yields: the tag, the
/// declared size, and the number of bytes the header occupies (NUL
/// included). The NUL is sought only within `HEADER_WINDOW` bytes.
pub open spec fn parse_header(u: Seq<u8>) -> Option<(ObjectKind, u64, int)> {
    let w = if u.len() > 512 { u.take(512) } else { u };
    let n = first_index(w, 0u8);
    if n < 0 {
        None
    } else {
        let h = w.take(n);
        let sp = first_index(h, 32u8);
        if sp < 0 {
            None
        } else {
            match parse_kind(h.take(sp)) {
                None => None,
                Some(kind) => match parse_size(h.skip(sp + 1)) {
                    None => None,
                    Some(size) => Some((kind, size, n + 1)),
                },
            }
        }
    }
}

/// The header only depends on the first `HEADER_WINDOW` bytes: parsing a
/// prefix cut at the window agrees with parsing the whole content.
pub proof fn lemma_parse_header_prefix(u: Seq<u8>, p: Seq<u8>)
    requires
        p == (if u.len() > 512 {
            u.take(512)
        } else {
            u
        }),
    ensures
        parse_header(p) == parse_header(u),
{
    if u.len() > 512 {
        assert(u.take(512).take(512) =~= u.take(512));
    }
}

} // verus!
