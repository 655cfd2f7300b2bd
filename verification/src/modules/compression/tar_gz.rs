use vstd::prelude::*;

use crate::errors::PackError;
use crate::modules::compression::archive::entries_safe;
use crate::modules::compression::archive::entries_wf_tar;
use crate::modules::compression::archive::ok_models;
use crate::modules::compression::archive::seq_model;
use crate::modules::compression::archive::ArchiveEntry;
use crate::modules::compression::archive::EntryModel;
use crate::modules::compression::gz;
use crate::modules::compression::gz::gzip_of;
use crate::modules::compression::tar;
use crate::modules::compression::tar::tar_bytes_of;
use crate::modules::compression::tar::tar_raw_seq;

verus! {

/// Pack an in-memory tree as a TAR archive wrapped in a GZIP stream.
pub fn compress(entries: &Vec<ArchiveEntry>) -> (r: Result<Vec<u8>, PackError>)
    ensures
        r matches Ok(v) ==> entries_wf_tar(seq_model(entries@)) && v@ == gzip_of(
            tar_bytes_of(tar_raw_seq(seq_model(entries@))),
        ),
        r matches Err(e) ==> e == PackError::IoFailure && !entries_wf_tar(seq_model(entries@)),
{
    match tar::compress(entries) {
        Ok(t) => Ok(gz::compress(t.as_slice())),
        Err(e) => Err(e),
    }
}

/// `out` is an acceptable unpack result for `data`: on bytes the paired
/// packer produced for a well-formed tree whose paths all pass the
/// path-safety validator, exactly that tree comes back.
pub open spec fn tar_gz_unpack_roundtrip(data: Seq<u8>, out: Option<Seq<EntryModel>>) -> bool {
    forall|es: Seq<EntryModel>|
        entries_wf_tar(es) && entries_safe(es) && data == gzip_of(
            tar_bytes_of(tar_raw_seq(es)),
        ) ==> out == Some(es)
}

/// Unwrap a GZIP stream and unpack the TAR archive inside it into an
/// in-memory tree; every entry is checked against the path-safety
/// validator, and an archive the paired packer produced for a well-formed,
/// safe tree unpacks to exactly that tree.
pub fn decompress(data: &[u8]) -> (r: Result<Vec<ArchiveEntry>, PackError>)
    ensures
        r matches Ok(v) ==> entries_safe(seq_model(v@)),
        tar_gz_unpack_roundtrip(data@, ok_models(r)),
{
    match gz::decompress(data) {
        Err(e) => Err(e),
        Ok(t) => {
            let inner = tar::decompress(t.as_slice());
            proof {
                assert forall|es: Seq<EntryModel>|
                    entries_wf_tar(es) && entries_safe(es) && data@ == gzip_of(
                        tar_bytes_of(tar_raw_seq(es)),
                    ) implies ok_models(inner) == Some(es) by {
                    assert(t@ == tar_bytes_of(tar_raw_seq(es)));
                }
            }
            inner
        },
    }
}

} // verus!
