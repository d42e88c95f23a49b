//! Compression of file payloads for the wire.
//!
//! Files travel zstd-compressed; the protocol logic never looks inside
//! the compressed bytes, it only moves, splits, hashes and finally
//! decompresses them.

use vstd::prelude::*;

verus! {

/// The zstd frame that compressing `data` at `level` produces.
pub uninterp spec fn zstd_compress_of(data: Seq<u8>, level: i32) -> Seq<u8>;

/// Whether compressing `data` at `level` succeeds.
pub uninterp spec fn zstd_compress_ok(data: Seq<u8>, level: i32) -> bool;

/// The bytes that decompressing the zstd frame `data` yields.
pub uninterp spec fn zstd_decompress_of(data: Seq<u8>) -> Seq<u8>;

/// Whether `data` is a well-formed zstd frame that decompresses.
pub uninterp spec fn zstd_decompress_ok(data: Seq<u8>) -> bool;

/// Relies on zstd::stream::encode_all: single-frame compression whose
/// output — and whether it succeeds at all — depends on the input
/// bytes and the level alone.
#[verifier::external_body]
pub(crate) fn zstd_compress(data: &Vec<u8>, level: i32) -> (r: Result<Vec<u8>, String>)
    ensures
        r is Ok <==> zstd_compress_ok(data@, level),
        r is Ok ==> r->Ok_0@ == zstd_compress_of(data@, level),
{
    match zstd::stream::encode_all(std::io::Cursor::new(data.as_slice()), level) {
        Ok(v) => Ok(v),
        Err(e) => Err(format!("{e}")),
    }
}

/// Relies on zstd::stream::decode_all: decompression of a single zstd
/// frame; the output depends on the input bytes alone, and exactly
/// the malformed inputs are reported as errors.
#[verifier::external_body]
pub(crate) fn zstd_decompress(data: &Vec<u8>) -> (r: Result<Vec<u8>, String>)
    ensures
        r is Ok <==> zstd_decompress_ok(data@),
        r is Ok ==> r->Ok_0@ == zstd_decompress_of(data@),
{
    match zstd::stream::decode_all(std::io::Cursor::new(data.as_slice())) {
        Ok(v) => Ok(v),
        Err(e) => Err(format!("{e}")),
    }
}

} // verus!
