//! The write path: from a type tag and payload to the canonical bytes,
//! their identifier, and the compressed stream to persist.
//!
//! Because the identifier is a digest of the exact bytes written, two
//! writers of the same logical object always compute the same identifier
//! and destination, which is what makes persisting idempotent: the caller
//! writes the compressed bytes to a fresh temporary file in the target
//! subdirectory and renames it into place, discarding the temporary file
//! when the destination already exists.

use vstd::prelude::*;
use crate::hash::{HashKind, Identifier, digest, digest_of};
use crate::header::{ObjectKind, header_bytes, push_header};
use crate::zlib::{deflate, deflate_of, inflate_of};

verus! {

/// A failure of the write path. I/O failures are fatal and surfaced
/// verbatim by the caller performing the filesystem work; a hash-kind
/// mismatch is a configuration error, never retried.
#[derive(Copy, Clone, Debug, PartialEq, Eq, Structural)]
pub enum WriteError {
    IoFailure,
    HashKindMismatch,
}

/// The canonical uncompressed bytes of an object: its header followed by
/// the payload. These are the bytes that are hashed and compressed.
pub open spec fn stored_bytes(kind: ObjectKind, payload: Seq<u8>) -> Seq<u8> {
    header_bytes(kind, payload.len() as u64) + payload
}

/// Everything a write needs to persist: the object's identifier and the
/// compressed stream destined for `loose_path(root, id)`.
pub struct PreparedWrite {
    pub id: Identifier,
    pub compressed: Vec<u8>,
}

impl crate::store::Store {
    /// Compute the canonical bytes of `(kind, payload)`, hash them under
    /// this store's hash kind, and compress them.
    pub fn prepare_write(&self, kind: ObjectKind, payload: &[u8]) -> (r: PreparedWrite)
        ensures
            r.id.wf(),
            r.id.spec_kind() == self.spec_hash_kind(),
            r.id@ == digest_of(self.spec_hash_kind(), stored_bytes(kind, payload@)),
            r.compressed@ == deflate_of(stored_bytes(kind, payload@)),
            inflate_of(r.compressed@) == Some(stored_bytes(kind, payload@)),
    {
        let mut canonical: Vec<u8> = Vec::new();
        push_header(kind, payload.len() as u64, &mut canonical);
        canonical.extend_from_slice(payload);
        proof {
            assert(canonical@ =~= stored_bytes(kind, payload@));
        }
        let hk = self.hash_kind();
        let bytes = digest(hk, canonical.as_slice());
        let id = Identifier::from_digest(hk, bytes);
        let compressed = deflate(canonical.as_slice());
        PreparedWrite { id, compressed }
    }
}

} // verus!
