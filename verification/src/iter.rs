//! Enumerating the identifiers stored under a root.
//!
//! The caller walks the two-level directory tree and hands each leaf
//! entry over as its `(subdirectory, file name)` pair; reconstructing and
//! validating the candidate identifier from those names is done here.
//! Entries that are not hex of exactly the expected width are reported as
//! `NotAnObject` rather than silently skipped, so an empty store can be
//! told apart from a polluted one.

use vstd::prelude::*;
use crate::hash::{HashKind, Identifier};
use crate::hex::{valid_hex, hex_to_bytes, decode_hex, lemma_hex_to_bytes_len};

verus! {

/// A failure while walking the store: the named entry is not an object
/// file. The payload is the entry's root-relative path.
#[derive(Clone, Debug, PartialEq, Eq)]
pub enum IterError {
    NotAnObject(Vec<u8>),
}

/// One directory entry of the walk: the two-character subdirectory name
/// and the file name under it.
#[derive(Clone, Debug)]
pub struct RawEntry {
    pub dir: Vec<u8>,
    pub file: Vec<u8>,
}

/// The identifier encoded by an entry's names: present when the
/// subdirectory has two characters and the concatenated names are hex of
/// exactly the width `kind` calls for.
pub open spec fn entry_id(dir: Seq<u8>, file: Seq<u8>, kind: HashKind) -> Option<Seq<u8>> {
    if dir.len() == 2 && dir.len() + file.len() == 2 * kind.spec_len() && valid_hex(dir + file) {
        Some(hex_to_bytes(dir + file))
    } else {
        None
    }
}

/// The `NotAnObject` report for an entry, naming its relative path.
fn not_object(dir: &[u8], file: &[u8]) -> (r: IterError)
    ensures
        r matches IterError::NotAnObject(p) && p@ == dir@ + seq![47u8] + file@,
{
    let mut p: Vec<u8> = Vec::new();
    p.extend_from_slice(dir);
    p.push(47u8);
    p.extend_from_slice(file);
    proof {
        assert(p@ =~= dir@ + seq![47u8] + file@);
    }
    IterError::NotAnObject(p)
}

/// Reconstruct the identifier a directory entry stands for, or report it
/// as not an object.
pub fn id_from_entry(dir: &[u8], file: &[u8], kind: HashKind) -> (r: Result<
    Identifier,
    IterError,
>)
    ensures
        entry_id(dir@, file@, kind) matches Some(bytes) ==> (r matches Ok(id) && id@ == bytes
            && id.spec_kind() == kind && id.wf()),
        entry_id(dir@, file@, kind) is None ==> (r matches Err(e) && (e matches
            IterError::NotAnObject(p) && p@ == dir@ + seq![47u8] + file@)),
{
    let mut full: Vec<u8> = Vec::new();
    full.extend_from_slice(dir);
    full.extend_from_slice(file);
    proof {
        assert(full@ =~= dir@ + file@);
    }
    if dir.len() != 2 || full.len() != kind.hex_len() {
        return Err(not_object(dir, file));
    }
    match decode_hex(full.as_slice()) {
        None => Err(not_object(dir, file)),
        Some(bytes) => {
            proof {
                lemma_hex_to_bytes_len(full@);
            }
            Ok(Identifier::from_digest(kind, bytes))
        },
    }
}

/// A single-pass sequence of the identifiers named by the walked
/// entries, in traversal order; order carries no meaning.
pub struct Iter {
    entries: Vec<RawEntry>,
    kind: HashKind,
    pos: usize,
}

impl Iter {
    /// The entries this iteration walks.
    pub closed spec fn raw(self) -> Seq<RawEntry> {
        self.entries@
    }

    /// The hash kind entries are validated against.
    pub closed spec fn spec_kind(self) -> HashKind {
        self.kind
    }

    /// How many entries have been yielded.
    pub closed spec fn position(self) -> int {
        self.pos as int
    }

    /// Begin an iteration over walked entries.
    pub fn new(entries: Vec<RawEntry>, kind: HashKind) -> (r: Iter)
        ensures
            r.raw() == entries@,
            r.spec_kind() == kind,
            r.position() == 0,
    {
        Iter { entries, kind, pos: 0 }
    }

    /// The next entry's identifier or `NotAnObject` report, or `None`
    /// once every entry has been yielded.
    pub fn next_entry(&mut self) -> (r: Option<Result<Identifier, IterError>>)
        ensures
            final(self).raw() == old(self).raw(),
            final(self).spec_kind() == old(self).spec_kind(),
            old(self).position() >= old(self).raw().len() ==> r is None && final(self).position()
                == old(self).position(),
            old(self).position() < old(self).raw().len() ==> (final(self).position() == old(
                self,
            ).position() + 1 && (r matches Some(item) && ({
                let e = old(self).raw()[old(self).position()];
                &&& (entry_id(e.dir@, e.file@, old(self).spec_kind()) matches Some(bytes)
                    ==> (item matches Ok(id) && id@ == bytes && id.spec_kind() == old(
                    self,
                ).spec_kind() && id.wf()))
                &&& (entry_id(e.dir@, e.file@, old(self).spec_kind()) is None ==> (item matches Err(
                    err,
                ) && (err matches IterError::NotAnObject(p) && p@ == e.dir@ + seq![47u8]
                    + e.file@)))
            }))),
    {
        if self.pos >= self.entries.len() {
            return None;
        }
        let e = &self.entries[self.pos];
        let item = id_from_entry(e.dir.as_slice(), e.file.as_slice(), self.kind);
        self.pos = self.pos + 1;
        Some(item)
    }
}

} // verus!
