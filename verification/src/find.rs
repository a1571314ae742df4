//! The read path: from a compressed stream to a typed payload, or to a
//! precise failure.
//!
//! `header_of_bytes` inflates only a short prefix and answers the type
//! and size without decompressing the payload; `decode_object_bytes`
//! inflates everything, checks the declared size against the actual
//! payload length, and can verify the digest against the identifier the
//! caller asked for.

use vstd::prelude::*;
use crate::hash::{Identifier, digest, digest_of};
use crate::header::{
    ObjectKind, parse_header, parse_kind, parse_size_bytes, first_index,
    lemma_first_index_bounds, lemma_first_index_is, HEADER_WINDOW,
};
use crate::zlib::{inflate_of, inflate_all, inflate_prefix, inflate_prefix_of};

verus! {

/// Why a read failed. Every failure is returned to the caller; none is
/// retried or swallowed. `NotFound` is produced by the caller that maps
/// the identifier to a missing file, `IoFailure` by the caller whose
/// filesystem read failed; both stand beside the decoding failures so a
/// read has a single error type.
#[derive(Copy, Clone, Debug, PartialEq, Eq, Structural)]
pub enum FindError {
    NotFound,
    MalformedHeader,
    CorruptCompression,
    SizeMismatch,
    HashMismatch,
    IoFailure,
}

/// A decoded object: its type tag, declared size, and payload. That
/// `data.len() == size` is enforced at decode time; a violation is a
/// `SizeMismatch`, never a silently truncated or padded object.
#[derive(Clone, Debug)]
pub struct DecodedObject {
    pub kind: ObjectKind,
    pub size: u64,
    pub data: Vec<u8>,
}

/// What decoding the uncompressed content `u` must yield: the parsed
/// header and the payload behind it, whose length must equal the
/// declared size exactly.
pub open spec fn decode_model(u: Seq<u8>) -> Result<(ObjectKind, u64, Seq<u8>), FindError> {
    match parse_header(u) {
        None => Err(FindError::MalformedHeader),
        Some((kind, size, hlen)) => if u.len() - hlen != size {
            Err(FindError::SizeMismatch)
        } else {
            Ok((kind, size, u.skip(hlen)))
        },
    }
}

/// The first position of `b` in `u[..limit]`, scanned left to right.
fn find_byte_in(u: &[u8], limit: usize, b: u8) -> (r: Option<usize>)
    requires
        limit <= u@.len(),
    ensures
        r is None ==> first_index(u@.take(limit as int), b) < 0,
        r matches Some(i) ==> first_index(u@.take(limit as int), b) == i && i < limit,
{
    let ghost w = u@.take(limit as int);
    let mut i: usize = 0;
    while i < limit
        invariant
            i <= limit <= u@.len(),
            w == u@.take(limit as int),
            forall|j: int| 0 <= j < i ==> w[j] != b,
        decreases limit - i,
    {
        proof {
            assert(w[i as int] == u@[i as int]);
        }
        if u[i] == b {
            proof {
                lemma_first_index_is(w, b, i as int);
            }
            return Some(i);
        }
        i += 1;
    }
    proof {
        lemma_first_index_bounds(w, b);
    }
    None
}

/// The tag named by `u[..end]`, if any.
fn kind_of_range(u: &[u8], end: usize) -> (r: Option<ObjectKind>)
    requires
        end <= u@.len(),
    ensures
        r == parse_kind(u@.subrange(0, end as int)),
{
    let ghost s = u@.subrange(0, end as int);
    proof {
        assert(forall|j: int| 0 <= j < end ==> s[j] == u@[j]);
    }
    if end == 4 && u[0] == 116 && u[1] == 114 && u[2] == 101 && u[3] == 101 {
        proof {
            assert(s =~= ObjectKind::Tree.name_bytes());
        }
        Some(ObjectKind::Tree)
    } else if end == 4 && u[0] == 98 && u[1] == 108 && u[2] == 111 && u[3] == 98 {
        proof {
            assert(s =~= ObjectKind::Blob.name_bytes());
        }
        Some(ObjectKind::Blob)
    } else if end == 6 && u[0] == 99 && u[1] == 111 && u[2] == 109 && u[3] == 109 && u[4] == 105
        && u[5] == 116 {
        proof {
            assert(s =~= ObjectKind::Commit.name_bytes());
        }
        Some(ObjectKind::Commit)
    } else if end == 3 && u[0] == 116 && u[1] == 97 && u[2] == 103 {
        proof {
            assert(s =~= ObjectKind::Tag.name_bytes());
        }
        Some(ObjectKind::Tag)
    } else {
        proof {
            let tn = ObjectKind::Tree.name_bytes();
            let bn = ObjectKind::Blob.name_bytes();
            let cn = ObjectKind::Commit.name_bytes();
            let gn = ObjectKind::Tag.name_bytes();
            assert(tn.len() == 4 && tn[0] == 116 && tn[1] == 114 && tn[2] == 101 && tn[3] == 101);
            assert(bn.len() == 4 && bn[0] == 98 && bn[1] == 108 && bn[2] == 111 && bn[3] == 98);
            assert(cn.len() == 6 && cn[0] == 99 && cn[1] == 111 && cn[2] == 109 && cn[3] == 109
                && cn[4] == 105 && cn[5] == 116);
            assert(gn.len() == 3 && gn[0] == 116 && gn[1] == 97 && gn[2] == 103);
        }
        None
    }
}

/// Decode a header from the front of uncompressed content `u`: the tag,
/// the declared size, and the header's length, NUL included.
pub fn parse_header_bytes(u: &[u8]) -> (r: Option<(ObjectKind, u64, usize)>)
    ensures
        ({
            match parse_header(u@) {
                None => r is None,
                Some((k, sz, hl)) => r matches Some(t) && t.0 == k && t.1 == sz && t.2 == hl,
            }
        }),
{
    let ulen = u.len();
    let limit = if ulen > 512 {
        512
    } else {
        ulen
    };
    let ghost w = if u@.len() > 512 {
        u@.take(512)
    } else {
        u@
    };
    proof {
        assert(w =~= u@.take(limit as int));
    }
    let n = match find_byte_in(u, limit, 0) {
        Some(i) => i,
        None => {
            return None;
        },
    };
    let ghost h = w.take(n as int);
    proof {
        assert(h =~= u@.take(n as int));
    }
    let sp = match find_byte_in(u, n, 32) {
        Some(i) => i,
        None => {
            return None;
        },
    };
    let kind = match kind_of_range(u, sp) {
        Some(k) => k,
        None => {
            proof {
                assert(h.take(sp as int) =~= u@.subrange(0, sp as int));
            }
            return None;
        },
    };
    proof {
        assert(h.take(sp as int) =~= u@.subrange(0, sp as int));
    }
    let size = match parse_size_bytes(u, sp + 1, n) {
        Some(v) => v,
        None => {
            proof {
                assert(h.skip(sp + 1) =~= u@.subrange(sp + 1, n as int));
            }
            return None;
        },
    };
    proof {
        assert(h.skip(sp + 1) =~= u@.subrange(sp + 1, n as int));
    }
    Some((kind, size, n + 1))
}

/// A decoded header stands within the window and inside the content.
pub proof fn lemma_parse_header_bounds(u: Seq<u8>)
    ensures
        parse_header(u) matches Some(t) ==> 1 <= t.2 <= u.len() && t.2 <= 512,
{
    let w = if u.len() > 512 {
        u.take(512)
    } else {
        u
    };
    lemma_first_index_bounds(w, 0u8);
}

/// Read the type and size of the object in compressed stream `z`,
/// inflating no more than the header window.
pub fn header_of_bytes(z: &[u8]) -> (r: Result<(ObjectKind, u64), FindError>)
    ensures
        inflate_prefix_of(z@, 512) is None ==> r == Err::<(ObjectKind, u64), FindError>(
            FindError::CorruptCompression,
        ),
        ({
            inflate_prefix_of(z@, 512) matches Some(p) ==> match parse_header(p) {
                None => r == Err::<(ObjectKind, u64), FindError>(FindError::MalformedHeader),
                Some((k, sz, hl)) => r == Ok::<(ObjectKind, u64), FindError>((k, sz)),
            }
        }),
        ({
            inflate_of(z@) matches Some(u) ==> match parse_header(u) {
                None => r == Err::<(ObjectKind, u64), FindError>(FindError::MalformedHeader),
                Some((k, sz, hl)) => r == Ok::<(ObjectKind, u64), FindError>((k, sz)),
            }
        }),
        r != Err::<(ObjectKind, u64), FindError>(FindError::NotFound),
{
    let prefix = match inflate_prefix(z, HEADER_WINDOW) {
        Some(p) => p,
        None => {
            return Err(FindError::CorruptCompression);
        },
    };
    proof {
        match inflate_of(z@) {
            Some(u) => {
                let w = if u.len() > 512 {
                    u.take(512)
                } else {
                    u
                };
                assert(prefix@ =~= w);
                crate::header::lemma_parse_header_prefix(u, w);
            },
            None => {},
        }
    }
    match parse_header_bytes(prefix.as_slice()) {
        Some((kind, size, _len)) => Ok((kind, size)),
        None => Err(FindError::MalformedHeader),
    }
}

/// Read the type and size of the located object: the file's contents
/// when the mapped path exists, `None` when it does not — a missing
/// object is `NotFound`, a legitimate transient outcome under concurrent
/// writers, never retried here.
pub fn header_file(contents: Option<&[u8]>) -> (r: Result<(ObjectKind, u64), FindError>)
    ensures
        r == Err::<(ObjectKind, u64), FindError>(FindError::NotFound) <==> contents is None,
        contents matches Some(z) ==> (inflate_prefix_of(z@, 512) is None ==> r == Err::<
            (ObjectKind, u64),
            FindError,
        >(FindError::CorruptCompression)),
        contents matches Some(z) ==> (inflate_of(z@) matches Some(u) ==> match parse_header(u) {
            None => r == Err::<(ObjectKind, u64), FindError>(FindError::MalformedHeader),
            Some((k, sz, hl)) => r == Ok::<(ObjectKind, u64), FindError>((k, sz)),
        }),
{
    match contents {
        None => Err(FindError::NotFound),
        Some(z) => header_of_bytes(z),
    }
}

/// Decode the located object: the file's contents when the mapped path
/// exists, `None` when it does not, which is `NotFound`.
pub fn decode_file(contents: Option<&[u8]>, expect: Option<&Identifier>) -> (r: Result<
    DecodedObject,
    FindError,
>)
    ensures
        r == Err::<DecodedObject, FindError>(FindError::NotFound) <==> contents is None,
        contents matches Some(z) ==> (inflate_of(z@) is None ==> r == Err::<
            DecodedObject,
            FindError,
        >(FindError::CorruptCompression)),
        contents matches Some(z) ==> (inflate_of(z@) matches Some(u) ==> match decode_model(u) {
            Err(e) => r == Err::<DecodedObject, FindError>(e),
            Ok((k, sz, payload)) => match expect {
                None => r matches Ok(d) && d.kind == k && d.size == sz && d.data@ == payload,
                Some(id) => if digest_of(id.spec_kind(), u) == id@ {
                    r matches Ok(d) && d.kind == k && d.size == sz && d.data@ == payload
                } else {
                    r == Err::<DecodedObject, FindError>(FindError::HashMismatch)
                },
            },
        }),
        r matches Ok(d) ==> d.data@.len() == d.size,
{
    match contents {
        None => Err(FindError::NotFound),
        Some(z) => decode_object_bytes(z, expect),
    }
}

/// Decode the whole object in compressed stream `z`. When `expect` names
/// an identifier, the digest of the inflated bytes is recomputed under
/// that identifier's kind and must match it.
pub fn decode_object_bytes(z: &[u8], expect: Option<&Identifier>) -> (r: Result<
    DecodedObject,
    FindError,
>)
    ensures
        inflate_of(z@) is None ==> r == Err::<DecodedObject, FindError>(
            FindError::CorruptCompression,
        ),
        ({
            inflate_of(z@) matches Some(u) ==> match decode_model(u) {
                Err(e) => r == Err::<DecodedObject, FindError>(e),
                Ok((k, sz, payload)) => match expect {
                    None => r matches Ok(d) && d.kind == k && d.size == sz && d.data@ == payload,
                    Some(id) => if digest_of(id.spec_kind(), u) == id@ {
                        r matches Ok(d) && d.kind == k && d.size == sz && d.data@ == payload
                    } else {
                        r == Err::<DecodedObject, FindError>(FindError::HashMismatch)
                    },
                },
            }
        }),
        r matches Ok(d) ==> d.data@.len() == d.size,
        r != Err::<DecodedObject, FindError>(FindError::NotFound),
{
    let u = match inflate_all(z) {
        Some(v) => v,
        None => {
            return Err(FindError::CorruptCompression);
        },
    };
    let (kind, size, hlen) = match parse_header_bytes(u.as_slice()) {
        Some(t) => t,
        None => {
            return Err(FindError::MalformedHeader);
        },
    };
    proof {
        lemma_parse_header_bounds(u@);
    }
    let payload_len = u.len() - hlen;
    if payload_len as u64 != size {
        return Err(FindError::SizeMismatch);
    }
    if let Some(id) = expect {
        let actual = digest(id.kind(), u.as_slice());
        proof {
            crate::lemma_bytes_eq(actual@, id@);
        }
        if !(actual == *id.as_bytes()) {
            return Err(FindError::HashMismatch);
        }
    }
    let tail = vstd::slice::slice_subrange(u.as_slice(), hlen, u.len());
    let data = vstd::slice::slice_to_vec(tail);
    proof {
        assert(data@ =~= u@.skip(hlen as int));
    }
    Ok(DecodedObject { kind, size, data })
}

} // verus!
