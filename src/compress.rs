//! Gzip compression of response bodies, done by flate2.

use vstd::prelude::*;
use std::io::Write;

verus! {

/// The gzip stream that flate2's encoder makes of `data` at the default
/// level, with an empty header (no name, no comment, no time stamp).
pub uninterp spec fn gzip_of(data: Seq<u8>) -> Seq<u8>;

/// Relies on flate2::write::GzEncoder (new, write_all, finish) with
/// Compression::default(). Its header carries no time stamp and a fixed
/// system byte, so the stream depends on the input bytes alone; writing
/// into a Vec never fails.
#[verifier::external_body]
pub(crate) fn gzip_compress(data: &[u8]) -> (r: Vec<u8>)
    ensures
        r@ == gzip_of(data@),
{
    let mut encoder = flate2::write::GzEncoder::new(Vec::new(), flate2::Compression::default());
    encoder.write_all(data).unwrap();
    encoder.finish().unwrap()
}

} // verus!
