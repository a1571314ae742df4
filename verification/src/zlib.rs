//! The streaming compression codec behind the store, as trusted wrappers
//! around flate2's zlib encoder and decoder.
//!
//! `inflate_of` names the decompressed content of a stream: `Some(u)` when
//! the input begins with one well-formed, complete zlib stream whose
//! decompressed content is `u`, `None` otherwise. `inflate_prefix_of`
//! names what decompressing at most a fixed number of bytes yields.

use vstd::prelude::*;

verus! {

/// The zlib stream that compressing `data` produces.
pub uninterp spec fn deflate_of(data: Seq<u8>) -> Seq<u8>;

/// The decompressed content of the zlib stream at the start of `z`, if
/// one is there and complete.
pub uninterp spec fn inflate_of(z: Seq<u8>) -> Option<Seq<u8>>;

/// The decompressed prefix of at most `cap` bytes that the decoder
/// yields on `z`, or `None` when it finds the stream corrupt or
/// truncated within the bytes that prefix needs.
pub uninterp spec fn inflate_prefix_of(z: Seq<u8>, cap: int) -> Option<Seq<u8>>;

/// Relies on flate2's `bufread::ZlibEncoder`: compresses the whole input
/// into one complete zlib stream, a function of the input bytes alone,
/// which decompresses back to exactly the input.
#[verifier::external_body]
pub(crate) fn deflate(data: &[u8]) -> (r: Vec<u8>)
    ensures
        r@ == deflate_of(data@),
        inflate_of(r@) == Some(data@),
{
    let mut enc = flate2::bufread::ZlibEncoder::new(data, flate2::Compression::default());
    let mut out = Vec::new();
    std::io::Read::read_to_end(&mut enc, &mut out).expect("reading from an in-memory encoder cannot fail");
    out
}

/// Relies on flate2's `bufread::ZlibDecoder`: reading it to the end
/// errors exactly on a corrupt or truncated stream, and on a well-formed
/// complete stream yields the full content.
#[verifier::external_body]
pub(crate) fn inflate_all(z: &[u8]) -> (r: Option<Vec<u8>>)
    ensures
        r is Some <==> inflate_of(z@) is Some,
        r matches Some(out) && inflate_of(z@) matches Some(u) ==> out@ == u,
{
    let mut dec = flate2::bufread::ZlibDecoder::new(z);
    let mut out = Vec::new();
    match std::io::Read::read_to_end(&mut dec, &mut out) {
        Ok(_) => Some(out),
        Err(_) => None,
    }
}

/// Relies on flate2's `bufread::ZlibDecoder` under `Read::take`: produces
/// at most `cap` decompressed bytes, consuming only as much of the
/// compressed input as that needs, and fails exactly when the stream is
/// corrupt or truncated within those bytes; the outcome depends on the
/// input bytes and the cap alone.
#[verifier::external_body]
pub(crate) fn inflate_prefix(z: &[u8], cap: usize) -> (r: Option<Vec<u8>>)
    ensures
        r is Some <==> inflate_prefix_of(z@, cap as int) is Some,
        r matches Some(out) ==> inflate_prefix_of(z@, cap as int) == Some(out@),
        r is None ==> inflate_of(z@) is None,
        r matches Some(out) && inflate_of(z@) matches Some(u) ==> out@ == u.take(
            vstd::math::min(cap as int, u.len() as int),
        ),
{
    let dec = flate2::bufread::ZlibDecoder::new(z);
    let mut lim = std::io::Read::take(dec, cap as u64);
    let mut out = Vec::new();
    match std::io::Read::read_to_end(&mut lim, &mut out) {
        Ok(_) => Some(out),
        Err(_) => None,
    }
}

} // verus!
