use vstd::prelude::*;

use std::io::Read;
use std::io::Write;

use flate2::read::GzDecoder;
use flate2::write::GzEncoder;

use crate::errors::PackError;

verus! {

/// The byte stream flate2's gzip encoder produces for a given input at the
/// default compression level: a pure function of the input bytes, since the
/// encoder writes a fixed header (zero mtime, operating-system byte 255).
pub uninterp spec fn gzip_of(b: Seq<u8>) -> Seq<u8>;

/// `out` is an acceptable result of decoding `data`: on any stream the
/// encoder produced, decoding succeeds and returns the original bytes.
pub open spec fn gzip_inverse(data: Seq<u8>, out: Option<Seq<u8>>) -> bool {
    forall|x: Seq<u8>| data == gzip_of(x) ==> out == Some(x)
}

/// Relies on flate2::write::GzEncoder (new, write_all, finish):
/// deterministic gzip framing of the input bytes at the default level;
/// writing into a Vec sink cannot fail.
#[verifier::external_body]
fn gz_encode_bytes(data: &[u8]) -> (r: Vec<u8>)
    ensures
        r@ == gzip_of(data@),
{
    let mut enc = GzEncoder::new(Vec::new(), flate2::Compression::default());
    enc.write_all(data).expect("gz encode failed");
    enc.finish().expect("gz encode failed")
}

/// Relies on flate2::read::GzDecoder (new, read_to_end): decoding a stream
/// the paired encoder produced yields exactly the original input.
#[verifier::external_body]
fn gz_decode_bytes(data: &[u8]) -> (r: Result<Vec<u8>, std::io::Error>)
    ensures
        gzip_inverse(data@, crate::modules::compression::ok_bytes(r)),
{
    let mut out = Vec::new();
    let mut dec = GzDecoder::new(data);
    dec.read_to_end(&mut out)?;
    Ok(out)
}

/// GZIP-compress one whole byte stream.
pub fn compress(data: &[u8]) -> (r: Vec<u8>)
    ensures
        r@ == gzip_of(data@),
{
    gz_encode_bytes(data)
}

/// Decompress one whole GZIP stream. A stream the paired compressor
/// produced decompresses to exactly the original bytes; a stream the
/// decoder cannot parse is reported as malformed.
pub fn decompress(data: &[u8]) -> (r: Result<Vec<u8>, PackError>)
    ensures
        gzip_inverse(data@, crate::modules::compression::ok_bytes(r)),
{
    match gz_decode_bytes(data) {
        Ok(v) => Ok(v),
        Err(_) => Err(PackError::MalformedArchive),
    }
}

} // verus!
