//! The store's governing laws, stated over the specification models that
//! the executable functions' contracts use, and proved once and for all.

use vstd::prelude::*;
use crate::find::{FindError, decode_model};
use crate::hash::{HashKind, digest_of};
use crate::header::{
    ObjectKind, header_bytes, parse_header, parse_kind, parse_size, dec_digits, is_dec_digit,
    pow10, lemma_dec_digits_are_digits, lemma_dec_round_trip, lemma_dec_digits_len,
    lemma_first_index_is,
};
use crate::hex::{
    hex_of, lemma_hex_of_len, lemma_hex_of_injective, lemma_hex_round_trip,
};
use crate::iter::entry_id;
use crate::store::loose_path;
use crate::write::{PreparedWrite, stored_bytes};
use crate::zlib::deflate_of;
use vstd::assert_by_contradiction;

verus! {

/// An object type's name is short, holds neither NUL nor space, and is
/// recognized back by `parse_kind`.
proof fn lemma_kind_name_props(kind: ObjectKind)
    ensures
        1 <= kind.name_bytes().len() <= 6,
        forall|j: int|
            0 <= j < kind.name_bytes().len() ==> #[trigger] kind.name_bytes()[j] != 0
                && kind.name_bytes()[j] != 32,
        parse_kind(kind.name_bytes()) == Some(kind),
{
    let tn = ObjectKind::Tree.name_bytes();
    let bn = ObjectKind::Blob.name_bytes();
    let cn = ObjectKind::Commit.name_bytes();
    let gn = ObjectKind::Tag.name_bytes();
    assert(tn.len() == 4 && tn[0] == 116 && tn[1] == 114 && tn[2] == 101 && tn[3] == 101);
    assert(bn.len() == 4 && bn[0] == 98 && bn[1] == 108 && bn[2] == 111 && bn[3] == 98);
    assert(cn.len() == 6 && cn[0] == 99 && cn[1] == 111 && cn[2] == 109 && cn[3] == 109 && cn[4]
        == 105 && cn[5] == 116);
    assert(gn.len() == 3 && gn[0] == 116 && gn[1] == 97 && gn[2] == 103);
}

/// The digit string of a `u64` has at most 20 characters.
proof fn lemma_u64_digits_short(size: u64)
    ensures
        dec_digits(size as nat).len() <= 20,
{
    reveal_with_fuel(pow10, 21);
    assert(pow10(20) > u64::MAX as nat);
    lemma_dec_digits_len(size as nat, 20);
}

/// Decoding a header from an encoded header followed by anything yields
/// back exactly the tag, the size, and the header's length.
pub proof fn lemma_parse_header_of_encoding(kind: ObjectKind, size: u64, rest: Seq<u8>)
    ensures
        parse_header(header_bytes(kind, size) + rest) == Some(
            (kind, size, header_bytes(kind, size).len() as int),
        ),
{
    let name = kind.name_bytes();
    let digits = dec_digits(size as nat);
    let hb = header_bytes(kind, size);
    let u = hb + rest;
    let hlen = hb.len() as int;
    lemma_kind_name_props(kind);
    lemma_dec_digits_are_digits(size as nat);
    lemma_u64_digits_short(size);
    lemma_dec_round_trip(size as nat);
    assert(hlen == name.len() + 2 + digits.len());
    assert(hlen <= 28);
    let w = if u.len() > 512 {
        u.take(512)
    } else {
        u
    };
    assert(forall|j: int| 0 <= j < hlen ==> #[trigger] w[j] == hb[j]);
    assert(hb[hlen - 1] == 0);
    assert forall|j: int| 0 <= j < hlen - 1 implies #[trigger] hb[j] != 0 by {
        if j < name.len() {
            assert(hb[j] == name[j]);
        } else if j == name.len() {
            assert(hb[j] == 32);
        } else {
            assert(hb[j] == digits[j - name.len() - 1]);
            assert(is_dec_digit(digits[j - name.len() - 1]));
        }
    }
    lemma_first_index_is(w, 0u8, hlen - 1);
    let h = w.take(hlen - 1);
    assert(h =~= name + seq![32u8] + digits);
    assert(h[name.len() as int] == 32);
    assert forall|j: int| 0 <= j < name.len() implies h[j] != 32 by {
        assert(h[j] == name[j]);
    }
    lemma_first_index_is(h, 32u8, name.len() as int);
    assert(h.take(name.len() as int) =~= name);
    assert(h.skip(name.len() as int + 1) =~= digits);
    assert(parse_size(digits) == Some(size));
}

/// Round-trip: decoding the canonical bytes of `(kind, payload)` yields
/// exactly that tag, the payload's length as the size, and the payload.
pub proof fn lemma_decode_of_stored(kind: ObjectKind, payload: Seq<u8>)
    requires
        payload.len() <= u64::MAX,
    ensures
        decode_model(stored_bytes(kind, payload)) == Ok::<_, FindError>(
            (kind, payload.len() as u64, payload),
        ),
{
    let size = payload.len() as u64;
    let hb = header_bytes(kind, size);
    let u = stored_bytes(kind, payload);
    lemma_parse_header_of_encoding(kind, size, payload);
    assert(u.len() - hb.len() == size);
    assert(u.skip(hb.len() as int) =~= payload);
}

/// Determinism: two prepared writes of the same object under the same
/// hash kind carry the same identifier, the same compressed bytes, and
/// the same destination path — a second write, or a concurrent one, can
/// only produce the file the first produced.
pub proof fn lemma_writers_agree(
    root: Seq<u8>,
    w1: PreparedWrite,
    w2: PreparedWrite,
    hk: HashKind,
    kind: ObjectKind,
    payload: Seq<u8>,
)
    requires
        w1.id@ == digest_of(hk, stored_bytes(kind, payload)),
        w2.id@ == digest_of(hk, stored_bytes(kind, payload)),
        w1.compressed@ == deflate_of(stored_bytes(kind, payload)),
        w2.compressed@ == deflate_of(stored_bytes(kind, payload)),
    ensures
        w1.id@ == w2.id@,
        w1.compressed@ == w2.compressed@,
        loose_path(root, w1.id@) == loose_path(root, w2.id@),
{
}

/// Path determinism: the mapped path is a pure function of the root and
/// the digest, and differs whenever the digest differs in any way.
pub proof fn lemma_path_for_injective(root: Seq<u8>, a: Seq<u8>, b: Seq<u8>)
    requires
        a != b,
        a.len() >= 1,
        b.len() >= 1,
    ensures
        loose_path(root, a) != loose_path(root, b),
{
    lemma_hex_of_len(a);
    lemma_hex_of_len(b);
    let pa = loose_path(root, a);
    let pb = loose_path(root, b);
    if a.len() == b.len() {
        assert_by_contradiction!(pa != pb, {
            let rl = root.len() as int;
            assert forall|i: int| 0 <= i < hex_of(a).len() implies hex_of(a)[i] == hex_of(b)[i]
                by {
                if i < 2 {
                    assert(pa[rl + 1 + i] == hex_of(a).take(2)[i]);
                    assert(pb[rl + 1 + i] == hex_of(b).take(2)[i]);
                } else {
                    assert(pa[rl + 4 + (i - 2)] == hex_of(a).skip(2)[i - 2]);
                    assert(pb[rl + 4 + (i - 2)] == hex_of(b).skip(2)[i - 2]);
                }
            }
            assert(hex_of(a) =~= hex_of(b));
            lemma_hex_of_injective(a, b);
        });
    } else {
        assert(pa.len() != pb.len());
    }
}

/// Header-only agreement: whenever full decoding succeeds, the
/// header-only view reports exactly the tag and size the full decode
/// carries (the window lemma in the header module extends this to the
/// short decompressed prefix the header-only read actually parses).
pub proof fn lemma_header_matches_decode(u: Seq<u8>)
    ensures
        decode_model(u) matches Ok(t) ==> parse_header(u) matches Some(h) && h.0 == t.0 && h.1
            == t.1,
{
}

/// Iteration round-trip: the entry names a stored object file gets — the
/// first two hex characters as the subdirectory, the rest as the file
/// name — always reconstruct exactly the digest they were derived from.
pub proof fn lemma_entry_round_trip(kind: HashKind, bytes: Seq<u8>)
    requires
        bytes.len() == kind.spec_len(),
    ensures
        entry_id(hex_of(bytes).take(2), hex_of(bytes).skip(2), kind) == Some(bytes),
{
    lemma_hex_of_len(bytes);
    lemma_hex_round_trip(bytes);
    assert(hex_of(bytes).take(2) + hex_of(bytes).skip(2) =~= hex_of(bytes));
}

} // verus!
