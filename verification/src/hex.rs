//! Lowercase hexadecimal encoding and decoding of byte strings.
//!
//! Object identifiers appear on disk as hex file names, so both directions
//! are specified exactly: encoding is injective and decoding inverts it.

use vstd::prelude::*;

verus! {

/// The ASCII code of the lowercase hex digit for a value below 16.
pub open spec fn hex_digit(v: u8) -> u8
    recommends
        v < 16,
{
    if v < 10 {
        (0x30 + v) as u8
    } else {
        (0x57 + v) as u8
    }
}

/// The two lowercase hex digits of one byte.
pub open spec fn hex_of_byte(b: u8) -> Seq<u8> {
    seq![hex_digit(b / 16), hex_digit(b % 16)]
}

/// The lowercase hex encoding of a byte string.
pub open spec fn hex_of(s: Seq<u8>) -> Seq<u8>
    decreases s.len(),
{
    if s.len() == 0 {
        Seq::empty()
    } else {
        hex_of_byte(s[0]) + hex_of(s.skip(1))
    }
}

/// The value of one hex digit, lowercase or uppercase, if it is one.
pub open spec fn hex_val(c: u8) -> Option<u8> {
    if 0x30 <= c <= 0x39 {
        Some((c - 0x30) as u8)
    } else if 0x61 <= c <= 0x66 {
        Some((c - 0x61 + 10) as u8)
    } else if 0x41 <= c <= 0x46 {
        Some((c - 0x41 + 10) as u8)
    } else {
        None
    }
}

/// Whether every character of `s` is a hex digit and the length is even.
pub open spec fn valid_hex(s: Seq<u8>) -> bool {
    s.len() % 2 == 0 && forall|i: int| 0 <= i < s.len() ==> #[trigger] hex_val(s[i]) is Some
}

/// The bytes denoted by a hex string (meaningful when `valid_hex` holds).
pub open spec fn hex_to_bytes(s: Seq<u8>) -> Seq<u8>
    decreases s.len(),
{
    if s.len() < 2 {
        Seq::empty()
    } else {
        seq![
            (hex_val(s[0]).unwrap_or(0) * 16 + hex_val(s[1]).unwrap_or(0)) as u8,
        ] + hex_to_bytes(s.skip(2))
    }
}

pub proof fn lemma_hex_to_bytes_len(s: Seq<u8>)
    ensures
        hex_to_bytes(s).len() == s.len() / 2,
    decreases s.len(),
{
    if s.len() >= 2 {
        lemma_hex_to_bytes_len(s.skip(2));
    }
}

pub proof fn lemma_hex_of_len(s: Seq<u8>)
    ensures
        hex_of(s).len() == 2 * s.len(),
    decreases s.len(),
{
    if s.len() > 0 {
        lemma_hex_of_len(s.skip(1));
    }
}

/// Decoding inverts encoding: the hex form of a byte string is valid hex
/// and denotes exactly that byte string.
pub proof fn lemma_hex_round_trip(s: Seq<u8>)
    ensures
        valid_hex(hex_of(s)),
        hex_to_bytes(hex_of(s)) == s,
    decreases s.len(),
{
    lemma_hex_of_len(s);
    if s.len() == 0 {
        assert(hex_to_bytes(hex_of(s)) =~= s);
    } else {
        lemma_hex_round_trip(s.skip(1));
        let h = hex_of(s);
        assert(h =~= hex_of_byte(s[0]) + hex_of(s.skip(1)));
        assert(h.skip(2) =~= hex_of(s.skip(1)));
        assert forall|i: int| 0 <= i < h.len() implies #[trigger] hex_val(h[i]) is Some by {
            if i >= 2 {
                assert(h[i] == hex_of(s.skip(1))[i - 2]);
            }
        }
        assert(hex_to_bytes(h) =~= s);
    }
}

/// Distinct byte strings of equal length have distinct hex encodings.
pub proof fn lemma_hex_of_injective(a: Seq<u8>, b: Seq<u8>)
    requires
        hex_of(a) == hex_of(b),
        a.len() == b.len(),
    ensures
        a == b,
{
    lemma_hex_round_trip(a);
    lemma_hex_round_trip(b);
}

/// Encode one nibble as a lowercase hex digit.
pub(crate) fn hex_digit_of(v: u8) -> (r: u8)
    requires
        v < 16,
    ensures
        r == hex_digit(v),
{
    if v < 10 {
        0x30 + v
    } else {
        0x57 + v
    }
}

/// Append the lowercase hex encoding of `s` to `out`.
pub fn push_hex(s: &[u8], out: &mut Vec<u8>)
    ensures
        final(out)@ == old(out)@ + hex_of(s@),
{
    let n = s.len();
    let mut i: usize = 0;
    while i < n
        invariant
            i <= n,
            n == s@.len(),
            out@ == old(out)@ + hex_of(s@.take(i as int)),
        decreases n - i,
    {
        let b = s[i];
        out.push(hex_digit_of(b / 16));
        out.push(hex_digit_of(b % 16));
        proof {
            lemma_hex_of_snoc(s@.take(i as int), b);
            assert(s@.take(i + 1) =~= s@.take(i as int).push(b));
            assert(out@ =~= old(out)@ + hex_of(s@.take(i + 1)));
        }
        i += 1;
    }
    proof {
        assert(s@.take(n as int) =~= s@);
    }
}

proof fn lemma_hex_of_snoc(s: Seq<u8>, b: u8)
    ensures
        hex_of(s.push(b)) == hex_of(s) + hex_of_byte(b),
    decreases s.len(),
{
    if s.len() == 0 {
        assert(s.push(b).skip(1) =~= Seq::<u8>::empty());
        assert(hex_of(s.push(b)) =~= hex_of(s) + hex_of_byte(b));
    } else {
        assert(s.push(b).skip(1) =~= s.skip(1).push(b));
        lemma_hex_of_snoc(s.skip(1), b);
        assert(s.push(b)[0] == s[0]);
        assert(hex_of(s.push(b)) == hex_of_byte(s[0]) + hex_of(s.push(b).skip(1)));
        assert(hex_of(s.push(b)) =~= hex_of(s) + hex_of_byte(b));
    }
}

/// The value of one hex digit character, if it is one.
pub(crate) fn hex_val_of(c: u8) -> (r: Option<u8>)
    ensures
        r == hex_val(c),
{
    if 0x30 <= c && c <= 0x39 {
        Some(c - 0x30)
    } else if 0x61 <= c && c <= 0x66 {
        Some(c - 0x61 + 10)
    } else if 0x41 <= c && c <= 0x46 {
        Some(c - 0x41 + 10)
    } else {
        None
    }
}

/// Decode a hex string into bytes; `None` when a character is not a hex
/// digit or the length is odd.
pub fn decode_hex(s: &[u8]) -> (r: Option<Vec<u8>>)
    ensures
        r is Some <==> valid_hex(s@),
        r matches Some(v) ==> v@ == hex_to_bytes(s@),
{
    let n = s.len();
    if n % 2 != 0 {
        return None;
    }
    let mut out: Vec<u8> = Vec::new();
    let mut i: usize = 0;
    while i < n
        invariant
            i <= n,
            i % 2 == 0,
            n % 2 == 0,
            n == s@.len(),
            forall|j: int| 0 <= j < i ==> #[trigger] hex_val(s@[j]) is Some,
            out@ == hex_to_bytes(s@.take(i as int)),
        decreases n - i,
    {
        let hi = match hex_val_of(s[i]) {
            Some(v) => v,
            None => {
                return None;
            },
        };
        let lo = match hex_val_of(s[i + 1]) {
            Some(v) => v,
            None => {
                return None;
            },
        };
        out.push(hi * 16 + lo);
        proof {
            lemma_hex_to_bytes_snoc2(s@, i as int);
        }
        i += 2;
    }
    proof {
        assert(s@.take(n as int) =~= s@);
    }
    Some(out)
}

proof fn lemma_hex_to_bytes_snoc2(s: Seq<u8>, i: int)
    requires
        0 <= i,
        i + 2 <= s.len(),
        i % 2 == 0,
    ensures
        hex_to_bytes(s.take(i + 2)) == hex_to_bytes(s.take(i)).push(
            (hex_val(s[i]).unwrap_or(0) * 16 + hex_val(s[i + 1]).unwrap_or(0)) as u8,
        ),
    decreases i,
{
    if i == 0 {
        let t = s.take(2);
        assert(t.len() == 2);
        assert(t[0] == s[0] && t[1] == s[1]);
        assert(t.skip(2) =~= Seq::<u8>::empty());
        assert(hex_to_bytes(t.skip(2)) == Seq::<u8>::empty());
        assert(hex_to_bytes(t) == seq![
            (hex_val(t[0]).unwrap_or(0) * 16 + hex_val(t[1]).unwrap_or(0)) as u8,
        ] + hex_to_bytes(t.skip(2)));
        assert(hex_to_bytes(s.take(0)) == Seq::<u8>::empty());
        assert(hex_to_bytes(s.take(2)) =~= hex_to_bytes(s.take(0)).push(
            (hex_val(s[0]).unwrap_or(0) * 16 + hex_val(s[1]).unwrap_or(0)) as u8,
        ));
    } else {
        lemma_hex_to_bytes_snoc2(s.skip(2), i - 2);
        assert(s.take(i + 2)[0] == s[0] && s.take(i + 2)[1] == s[1]);
        assert(s.take(i)[0] == s[0] && s.take(i)[1] == s[1]);
        assert(s.take(i + 2).skip(2) =~= s.skip(2).take(i));
        assert(s.take(i).skip(2) =~= s.skip(2).take(i - 2));
        assert(s.skip(2)[i - 2] == s[i] && s.skip(2)[i - 1] == s[i + 1]);
        assert(hex_to_bytes(s.take(i + 2)) =~= hex_to_bytes(s.take(i)).push(
            (hex_val(s[i]).unwrap_or(0) * 16 + hex_val(s[i + 1]).unwrap_or(0)) as u8,
        ));
    }
}

} // verus!
