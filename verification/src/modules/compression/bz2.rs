use vstd::prelude::*;

use std::io::Read;
use std::io::Write;

use bzip2::read::BzDecoder;
use bzip2::write::BzEncoder;

use crate::errors::PackError;

verus! {

/// The byte stream the bzip2 encoder produces for a given input at the
/// default compression level: a pure function of the input bytes (the
/// BZIP2 format carries no timestamps or other ambient state).
pub uninterp spec fn bzip_of(b: Seq<u8>) -> Seq<u8>;

/// `out` is an acceptable result of decoding `data`: on any stream the
/// encoder produced, decoding succeeds and returns the original bytes.
pub open spec fn bzip_inverse(data: Seq<u8>, out: Option<Seq<u8>>) -> bool {
    forall|x: Seq<u8>| data == bzip_of(x) ==> out == Some(x)
}

/// Relies on bzip2::write::BzEncoder (new, write_all, finish):
/// deterministic BZIP2 encoding of the input bytes at the default level;
/// writing into a Vec sink cannot fail.
#[verifier::external_body]
fn bz_encode_bytes(data: &[u8]) -> (r: Vec<u8>)
    ensures
        r@ == bzip_of(data@),
{
    let mut enc = BzEncoder::new(Vec::new(), bzip2::Compression::default());
    enc.write_all(data).expect("bz2 encode failed");
    enc.finish().expect("bz2 encode failed")
}

/// Relies on bzip2::read::BzDecoder (new, read_to_end): decoding a stream
/// the paired encoder produced yields exactly the original input.
#[verifier::external_body]
fn bz_decode_bytes(data: &[u8]) -> (r: Result<Vec<u8>, std::io::Error>)
    ensures
        bzip_inverse(data@, crate::modules::compression::ok_bytes(r)),
{
    let mut out = Vec::new();
    let mut dec = BzDecoder::new(data);
    dec.read_to_end(&mut out)?;
    Ok(out)
}

/// BZIP2-compress one whole byte stream.
pub fn compress(data: &[u8]) -> (r: Vec<u8>)
    ensures
        r@ == bzip_of(data@),
{
    bz_encode_bytes(data)
}

/// Decompress one whole BZIP2 stream. A stream the paired compressor
/// produced decompresses to exactly the original bytes; a stream the
/// decoder cannot parse is reported as malformed.
pub fn decompress(data: &[u8]) -> (r: Result<Vec<u8>, PackError>)
    ensures
        bzip_inverse(data@, crate::modules::compression::ok_bytes(r)),
{
    match bz_decode_bytes(data) {
        Ok(v) => Ok(v),
        Err(_) => Err(PackError::MalformedArchive),
    }
}

} // verus!
