use vstd::prelude::*;

verus! {

/// The closed set of container/compression formats the crate identifies and
/// codecs. Exactly one `FileType` is associated with any classified file.
#[derive(Copy, Clone, PartialEq, Eq, PartialOrd, Ord, Debug, Structural)]
pub enum FileType {
    Zip,
    Tar,
    Bz2,
    Gz,
    Tarbz2,
    Targz,
}

/// The canonical lowercase name of each format, as `get_file_type_string`
/// returns it.
pub open spec fn spec_file_type_string(t: FileType) -> Seq<char> {
    match t {
        FileType::Zip => "zip"@,
        FileType::Tar => "tar"@,
        FileType::Bz2 => "bz2"@,
        FileType::Gz => "gz"@,
        FileType::Tarbz2 => "tar.bz2"@,
        FileType::Targz => "tar.gz"@,
    }
}

/// The conventional file extension for a format, used when naming output
/// artifacts.
pub fn get_file_type_string(file_type: FileType) -> (r: &'static str)
    ensures
        r@ == spec_file_type_string(file_type),
{
    match file_type {
        FileType::Zip => "zip",
        FileType::Tar => "tar",
        FileType::Bz2 => "bz2",
        FileType::Gz => "gz",
        FileType::Tarbz2 => "tar.bz2",
        FileType::Targz => "tar.gz",
    }
}

} // verus!
