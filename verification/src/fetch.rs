//! The fetch-and-decode primitive: choosing between the primary and fallback
//! snapshot responses and decompressing the winner.
//!
//! The network transfer itself is left to the caller; this module decides
//! which response body to keep and turns it into artifact bytes, refusing an
//! empty decompression result.

use vstd::prelude::*;
use crate::AuditError;

verus! {

/// What `brotli::Decompressor` yields for a given compressed stream: a
/// function of the input bytes alone, `None` when the stream is malformed.
pub uninterp spec fn brotli_inflate(compressed: Seq<u8>) -> Option<Seq<u8>>;

/// Relies on `brotli::Decompressor`, a `std::io::Read` adapter: reading it to
/// the end yields the decompression of the input bytes, which depends on
/// those bytes alone, and fails exactly on a malformed stream.
#[verifier::external_body]
fn brotli_decompress(compressed: &Vec<u8>) -> (r: Option<Vec<u8>>)
    ensures
        match r {
            Option::Some(out) => brotli_inflate(compressed@) == Option::Some(out@),
            Option::None => brotli_inflate(compressed@) is None,
        },
{
    let mut out: Vec<u8> = Vec::new();
    let mut dec = brotli::Decompressor::new(compressed.as_slice(), 4096);
    match std::io::Read::read_to_end(&mut dec, &mut out) {
        Ok(_) => Some(out),
        Err(_) => None,
    }
}

/// Decompress a downloaded snapshot into artifact bytes.
///
/// An empty decompression result is treated as a fetch failure, never as a
/// valid empty snapshot: the caller gets `DecompressionError` and no bytes,
/// so a zero-byte artifact can never be cached.
pub fn decode_snapshot(compressed: &Vec<u8>) -> (r: Result<Vec<u8>, AuditError>)
    ensures
        match r {
            Result::Ok(out) => brotli_inflate(compressed@) == Option::Some(out@) && out@.len()
                > 0,
            Result::Err(e) => e is DecompressionError && (brotli_inflate(compressed@) is None
                || brotli_inflate(compressed@) == Option::Some(Seq::<u8>::empty())),
        },
{
    match brotli_decompress(compressed) {
        None => Err(AuditError::DecompressionError),
        Some(out) => {
            if out.len() == 0 {
                proof {
                    assert(out@ =~= Seq::<u8>::empty());
                }
                Err(AuditError::DecompressionError)
            } else {
                Ok(out)
            }
        },
    }
}

/// Accept a payload that the transport already decompressed.
///
/// An empty payload is refused as `DecompressionError`, exactly as in
/// `decode_snapshot`: a zero-byte artifact can never be cached.
pub fn accept_payload(bytes: Vec<u8>) -> (r: Result<Vec<u8>, AuditError>)
    ensures
        match r {
            Result::Ok(out) => out == bytes && bytes@.len() > 0,
            Result::Err(e) => e is DecompressionError && bytes@.len() == 0,
        },
{
    if bytes.len() == 0 {
        Err(AuditError::DecompressionError)
    } else {
        Ok(bytes)
    }
}

/// Pick the snapshot body out of the two channel answers.
///
/// The primary response wins when it succeeded; otherwise the fallback's body
/// is taken; when neither source answered with success the fetch fails with
/// `DownloadError`, carrying the last URL attempted and its status.
pub fn select_snapshot(
    primary: Option<Vec<u8>>,
    fallback: Option<Vec<u8>>,
    last_url: String,
    last_status: u16,
) -> (r: Result<Vec<u8>, AuditError>)
    ensures
        primary is Some ==> r == Result::<Vec<u8>, AuditError>::Ok(primary.unwrap()),
        primary is None && fallback is Some ==> r == Result::<Vec<u8>, AuditError>::Ok(
            fallback.unwrap(),
        ),
        primary is None && fallback is None ==> r == Result::<Vec<u8>, AuditError>::Err(
            (AuditError::DownloadError { url: last_url, status: last_status }),
        ),
{
    match primary {
        Some(body) => Ok(body),
        None => match fallback {
            Some(body) => Ok(body),
            None => Err(AuditError::DownloadError { url: last_url, status: last_status }),
        },
    }
}

} // verus!
