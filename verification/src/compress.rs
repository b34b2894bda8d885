//! Compression of a finished page, by the `flate2` crate.

use vstd::prelude::*;
use std::io::Write;
use flate2::write::GzEncoder;
use flate2::Compression;
use crate::error::BuildError;

verus! {

/// The gzip stream that the encoder writes for the given bytes at its
/// default level; `None` if the encoder reports a failure.
pub uninterp spec fn gzip(bytes: Seq<u8>) -> Option<Seq<u8>>;

/// Makes a `GzEncoder` over an empty vector at `Compression::default()`,
/// writes the bytes to it and calls `GzEncoder::finish`. The header that
/// the encoder writes holds no time and no file name, so the stream
/// depends on the bytes alone.
#[verifier::external_body]
fn gzip_encode(bytes: &[u8]) -> (out: Option<Vec<u8>>)
    ensures
        match out {
            Some(stream) => gzip(bytes@) == Some(stream@),
            None => gzip(bytes@) is None,
        },
{
    let mut encoder = GzEncoder::new(Vec::new(), Compression::default());
    encoder.write_all(bytes).and_then(|()| encoder.finish()).ok()
}

/// Compresses the bytes of a page.
pub fn compress(bytes: &[u8]) -> (out: Result<Vec<u8>, BuildError>)
    ensures
        match out {
            Ok(stream) => gzip(bytes@) == Some(stream@),
            Err(error) => error == BuildError::Compress && gzip(bytes@) is None,
        },
{
    match gzip_encode(bytes) {
        Some(stream) => Ok(stream),
        None => Err(BuildError::Compress),
    }
}

} // verus!
