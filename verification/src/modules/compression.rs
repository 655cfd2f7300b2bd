use vstd::prelude::*;

pub mod archive;
pub mod bz2;
pub mod gz;
pub mod tar;
pub mod tar_bz2;
pub mod tar_gz;
pub mod zip;

verus! {

#[verifier::external_type_specification]
#[verifier::external_body]
pub struct ExIoError(std::io::Error);

/// The bytes a fallible byte-stream operation handed back, if it succeeded.
pub open spec fn ok_bytes<E>(r: Result<Vec<u8>, E>) -> Option<Seq<u8>> {
    match r {
        Ok(v) => Some(v@),
        Err(_) => None,
    }
}

} // verus!
