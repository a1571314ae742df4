//! The store value itself and the pure digest-to-path mapping.
//!
//! A store is only a root directory (as bytes) and a hash kind; every
//! object lives at `root/<first-two-hex>/<remaining-hex>`, which bounds
//! the directory fan-out to 256 subdirectories.

use vstd::prelude::*;
use crate::hash::{HashKind, Identifier};
use crate::hex::{hex_of, push_hex, lemma_hex_of_len};

verus! {

/// A database for reading and writing objects to disk, one file per
/// object. A plain value: cloning it performs no I/O, and all mutation
/// happens on the filesystem it points at.
#[derive(Clone, Debug)]
pub struct Store {
    pub(crate) root: Vec<u8>,
    pub(crate) hash_kind: HashKind,
}

impl Store {
    /// The objects directory this store works under.
    pub closed spec fn spec_root(self) -> Seq<u8> {
        self.root@
    }

    /// The digest kind assumed during iteration and used for new objects.
    pub closed spec fn spec_hash_kind(self) -> HashKind {
        self.hash_kind
    }

    /// Initialize the store with the directory that holds the hexadecimal
    /// first-byte subdirectories. Pure: the root need not exist yet.
    pub fn at(objects_directory: Vec<u8>, hash_kind: HashKind) -> (r: Store)
        ensures
            r.spec_root() == objects_directory@,
            r.spec_hash_kind() == hash_kind,
    {
        Store { root: objects_directory, hash_kind }
    }

    /// The path of the objects directory.
    pub fn path(&self) -> (r: &Vec<u8>)
        ensures
            r@ == self.spec_root(),
    {
        &self.root
    }

    /// The kind of hash this store iterates and writes.
    pub fn hash_kind(&self) -> (r: HashKind)
        ensures
            r == self.spec_hash_kind(),
    {
        self.hash_kind
    }

    /// The path at which the object named `id` is stored.
    pub fn object_path(&self, id: &Identifier) -> (r: Vec<u8>)
        requires
            id.wf(),
        ensures
            r@ == loose_path(self.spec_root(), id@),
    {
        path_for(self.root.as_slice(), id)
    }
}

impl PartialEq for Store {
    /// Stores are equal iff they have the same root and hash kind.
    fn eq(&self, other: &Store) -> (r: bool) {
        proof {
            crate::lemma_bytes_eq(self.root@, other.root@);
        }
        self.root == other.root && self.hash_kind == other.hash_kind
    }
}

impl vstd::std_specs::cmp::PartialEqSpecImpl for Store {
    open spec fn obeys_eq_spec() -> bool {
        true
    }

    open spec fn eq_spec(&self, other: &Store) -> bool {
        self.spec_root() == other.spec_root() && self.spec_hash_kind() == other.spec_hash_kind()
    }
}

impl Eq for Store {}

/// The two-level path of the object whose digest is `id` under `root`:
/// the first two hex characters name the subdirectory, the rest name the
/// file. Pure and total.
pub open spec fn loose_path(root: Seq<u8>, id: Seq<u8>) -> Seq<u8> {
    root + seq![47u8] + hex_of(id).take(2) + seq![47u8] + hex_of(id).skip(2)
}

/// Map a digest to its two-level path under `root`.
pub fn path_for(root: &[u8], id: &Identifier) -> (r: Vec<u8>)
    requires
        id.wf(),
    ensures
        r@ == loose_path(root@, id@),
{
    let hex = id.to_hex();
    proof {
        lemma_hex_of_len(id@);
    }
    let mut out: Vec<u8> = Vec::new();
    out.extend_from_slice(root);
    out.push(47u8);
    out.push(hex[0]);
    out.push(hex[1]);
    out.push(47u8);
    let rest = vstd::slice::slice_subrange(hex.as_slice(), 2, hex.len());
    out.extend_from_slice(rest);
    proof {
        assert(out@ =~= loose_path(root@, id@));
    }
    out
}

} // verus!
