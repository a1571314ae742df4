//! Hash kinds, digests, and the fixed-width object identifier.
//!
//! An identifier is the digest of an object's canonical header+payload
//! bytes under the store's configured hash kind; it is the sole addressing
//! key, compared byte for byte.

use vstd::prelude::*;
use crate::hex::{hex_of, push_hex, valid_hex, hex_to_bytes, decode_hex};

verus! {

/// The configurable digest algorithm of a store.
#[derive(Copy, Clone, Debug, Hash, PartialEq, Eq, Structural)]
pub enum HashKind {
    Sha1,
    Sha256,
}

impl HashKind {
    /// The width of a digest of this kind, in bytes.
    pub open spec fn spec_len(self) -> nat {
        match self {
            HashKind::Sha1 => 20,
            HashKind::Sha256 => 32,
        }
    }

    /// The width of a digest of this kind, in bytes.
    pub fn len_bytes(self) -> (r: usize)
        ensures
            r == self.spec_len(),
    {
        match self {
            HashKind::Sha1 => 20,
            HashKind::Sha256 => 32,
        }
    }

    /// The length of the hex form of a digest of this kind.
    pub fn hex_len(self) -> (r: usize)
        ensures
            r == 2 * self.spec_len(),
    {
        match self {
            HashKind::Sha1 => 40,
            HashKind::Sha256 => 64,
        }
    }
}

/// The SHA-1 digest of a byte string.
pub uninterp spec fn sha1_of(data: Seq<u8>) -> Seq<u8>;

/// The SHA-256 digest of a byte string.
pub uninterp spec fn sha256_of(data: Seq<u8>) -> Seq<u8>;

/// The digest of `data` under `kind`.
pub open spec fn digest_of(kind: HashKind, data: Seq<u8>) -> Seq<u8> {
    match kind {
        HashKind::Sha1 => sha1_of(data),
        HashKind::Sha256 => sha256_of(data),
    }
}

/// Relies on `sha1::Sha1` (through the `Digest` interface): the 20-byte
/// SHA-1 digest, a function of the input bytes alone.
#[verifier::external_body]
fn sha1_digest(data: &[u8]) -> (r: Vec<u8>)
    ensures
        r@ == sha1_of(data@),
        r@.len() == 20,
{
    <sha1::Sha1 as sha1::Digest>::digest(data).to_vec()
}

/// Relies on `sha2::Sha256` (through the `Digest` interface): the 32-byte
/// SHA-256 digest, a function of the input bytes alone.
#[verifier::external_body]
fn sha256_digest(data: &[u8]) -> (r: Vec<u8>)
    ensures
        r@ == sha256_of(data@),
        r@.len() == 32,
{
    <sha2::Sha256 as sha2::Digest>::digest(data).to_vec()
}

/// The digest of `data` under `kind`.
pub fn digest(kind: HashKind, data: &[u8]) -> (r: Vec<u8>)
    ensures
        r@ == digest_of(kind, data@),
        r@.len() == kind.spec_len(),
{
    match kind {
        HashKind::Sha1 => sha1_digest(data),
        HashKind::Sha256 => sha256_digest(data),
    }
}

/// A fixed-width object identifier: the digest bytes together with the
/// kind that produced them.
#[derive(Clone, Debug, Hash)]
pub struct Identifier {
    kind: HashKind,
    bytes: Vec<u8>,
}

impl View for Identifier {
    type V = Seq<u8>;

    closed spec fn view(&self) -> Seq<u8> {
        self.bytes@
    }
}

impl Identifier {
    /// The hash kind this identifier was produced under.
    pub closed spec fn spec_kind(self) -> HashKind {
        self.kind
    }

    /// A well-formed identifier is exactly as wide as its kind's digest.
    pub open spec fn wf(self) -> bool {
        self@.len() == self.spec_kind().spec_len()
    }

    /// The hash kind this identifier was produced under.
    pub fn kind(&self) -> (r: HashKind)
        ensures
            r == self.spec_kind(),
    {
        self.kind
    }

    /// The digest bytes.
    pub fn as_bytes(&self) -> (r: &Vec<u8>)
        ensures
            r@ == self@,
    {
        &self.bytes
    }

    /// Build an identifier from digest bytes known to have the right width.
    pub fn from_digest(kind: HashKind, bytes: Vec<u8>) -> (r: Identifier)
        requires
            bytes@.len() == kind.spec_len(),
        ensures
            r@ == bytes@,
            r.spec_kind() == kind,
            r.wf(),
    {
        Identifier { kind, bytes }
    }

    /// Build an identifier from digest bytes of any width; `None` when the
    /// width does not match the kind (the caller assumed a different
    /// digest width than `kind` has).
    pub fn from_bytes(kind: HashKind, bytes: Vec<u8>) -> (r: Option<Identifier>)
        ensures
            r is Some <==> bytes@.len() == kind.spec_len(),
            r matches Some(id) ==> id@ == bytes@ && id.spec_kind() == kind && id.wf(),
    {
        if bytes.len() == kind.len_bytes() {
            Some(Identifier { kind, bytes })
        } else {
            None
        }
    }

    /// Decode an identifier from its hex form; `None` when the text is not
    /// hex of exactly the kind's width.
    pub fn from_hex(kind: HashKind, text: &[u8]) -> (r: Option<Identifier>)
        ensures
            r is Some <==> (text@.len() == 2 * kind.spec_len() && valid_hex(text@)),
            r matches Some(id) ==> id@ == hex_to_bytes(text@) && id.spec_kind() == kind
                && id.wf(),
    {
        if text.len() != kind.hex_len() {
            return None;
        }
        match decode_hex(text) {
            None => None,
            Some(bytes) => {
                proof {
                    crate::hex::lemma_hex_to_bytes_len(text@);
                }
                Some(Identifier { kind, bytes })
            },
        }
    }

    /// The lowercase hex form of the identifier.
    pub fn to_hex(&self) -> (r: Vec<u8>)
        ensures
            r@ == hex_of(self@),
    {
        let mut out: Vec<u8> = Vec::new();
        push_hex(self.bytes.as_slice(), &mut out);
        proof {
            assert(out@ =~= hex_of(self@));
        }
        out
    }
}

impl PartialEq for Identifier {
    /// Identifiers are equal iff their kinds and digest bytes are equal.
    fn eq(&self, other: &Identifier) -> (r: bool) {
        proof {
            crate::lemma_bytes_eq(self.bytes@, other.bytes@);
        }
        self.kind == other.kind && self.bytes == other.bytes
    }
}

impl vstd::std_specs::cmp::PartialEqSpecImpl for Identifier {
    open spec fn obeys_eq_spec() -> bool {
        true
    }

    open spec fn eq_spec(&self, other: &Identifier) -> bool {
        self.spec_kind() == other.spec_kind() && self@ == other@
    }
}

impl Eq for Identifier {}

} // verus!
