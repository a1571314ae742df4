//! A loose object store: content-addressed, individually compressed objects
//! kept one per file under a two-level directory layout, together with the
//! value types for display-attribute (color) configuration strings.

use vstd::prelude::*;

pub mod find;
pub mod hash;
pub mod color;
pub mod header;
pub mod hex;
pub mod iter;
pub mod laws;
pub mod store;
pub mod write;
pub mod zlib;

verus! {

/// Two byte strings are equal exactly when they have the same length and
/// agree at every index.
pub proof fn lemma_bytes_eq(a: Seq<u8>, b: Seq<u8>)
    ensures
        (a == b) <==> (a.len() == b.len() && (forall|i: int|
            0 <= i < a.len() ==> a[i] == b[i])),
{
    if a.len() == b.len() && (forall|i: int| 0 <= i < a.len() ==> a[i] == b[i]) {
        assert(a =~= b);
    }
}

} // verus!
