//! The zlib and gzip codecs of `flate2`, as used on chunk payloads and level data.
use vstd::prelude::*;
use std::io::Read;
use std::io::Write;

verus! {

/// What `flate2`'s zlib decoder reads from a whole input: `Some` of the decompressed
/// bytes when reading to the end succeeds, `None` when it reports an error.
pub uninterp spec fn zlib_decoded(data: Seq<u8>) -> Option<Seq<u8>>;

/// What `flate2`'s gzip decoder reads from a whole input: `Some` of the decompressed
/// bytes when reading to the end succeeds, `None` when it reports an error.
pub uninterp spec fn gzip_decoded(data: Seq<u8>) -> Option<Seq<u8>>;

/// What `flate2`'s zlib encoder at the default level writes for an input: `Some` of
/// the compressed stream, `None` when writing or finishing reports an error.
pub uninterp spec fn zlib_encoded(data: Seq<u8>) -> Option<Seq<u8>>;

/// Reads `flate2::read::ZlibDecoder` over `data` to the end. The result is that of
/// the decoder on `data`; which bytes the decoder produces is not stated.
#[verifier::external_body]
pub(crate) fn zlib_decode(data: &[u8]) -> (r: Result<Vec<u8>, std::io::Error>)
    ensures
        r is Ok <==> zlib_decoded(data@) is Some,
        r matches Ok(v) ==> zlib_decoded(data@) == Some(v@),
{
    let mut decoder = flate2::read::ZlibDecoder::new(data);
    let mut out = Vec::new();
    match decoder.read_to_end(&mut out) {
        Ok(_) => Ok(out),
        Err(e) => Err(e),
    }
}

/// Reads `flate2::read::GzDecoder` over `data` to the end. The result is that of the
/// decoder on `data`; which bytes the decoder produces is not stated.
#[verifier::external_body]
pub(crate) fn gzip_decode(data: &[u8]) -> (r: Result<Vec<u8>, std::io::Error>)
    ensures
        r is Ok <==> gzip_decoded(data@) is Some,
        r matches Ok(v) ==> gzip_decoded(data@) == Some(v@),
{
    let mut decoder = flate2::read::GzDecoder::new(data);
    let mut out = Vec::new();
    match decoder.read_to_end(&mut out) {
        Ok(_) => Ok(out),
        Err(e) => Err(e),
    }
}

/// Writes `data` through `flate2::write::ZlibEncoder` (default level) into a vector
/// and finishes the stream. Writing into a vector does not fail, so the result is
/// `Ok`, the encoder's stream on `data`; its bytes are not stated.
#[verifier::external_body]
pub(crate) fn zlib_encode(data: &[u8]) -> (r: Result<Vec<u8>, std::io::Error>)
    ensures
        r is Ok,
        r is Ok <==> zlib_encoded(data@) is Some,
        r matches Ok(v) ==> zlib_encoded(data@) == Some(v@),
{
    let mut encoder = flate2::write::ZlibEncoder::new(Vec::new(), flate2::Compression::default());
    match encoder.write_all(data) {
        Ok(()) => encoder.finish(),
        Err(e) => Err(e),
    }
}

} // verus!
