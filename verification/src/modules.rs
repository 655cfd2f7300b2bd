use vstd::prelude::*;

pub mod compression;

use crate::contents::enums::FileType;
use crate::errors::PackError;
use crate::modules::compression::archive::entries_safe;
use crate::modules::compression::archive::entry_safe;
use crate::modules::compression::archive::entry_wf_tar;
use crate::modules::compression::archive::lemma_tar_path_ok_implies_safe;
use crate::modules::compression::archive::entries_wf_tar;
use crate::modules::compression::archive::entries_wf_zip;
use crate::modules::compression::archive::seq_model;
use crate::modules::compression::archive::ArchiveEntry;
use crate::modules::compression::archive::EntryModel;
use crate::modules::compression::bz2;
use crate::modules::compression::bz2::bzip_of;
use crate::modules::compression::gz;
use crate::modules::compression::gz::gzip_of;
use crate::modules::compression::tar;
use crate::modules::compression::tar::tar_bytes_of;
use crate::modules::compression::tar::tar_raw_seq;
use crate::modules::compression::tar_bz2;
use crate::modules::compression::tar_gz;
use crate::modules::compression::zip;
use crate::modules::compression::zip::zip_bytes_of;
use crate::modules::compression::zip::zip_raw_seq;

verus! {

/// True when `target` occurs in `source` starting at index `i`.
pub open spec fn matches_at(source: Seq<u8>, target: Seq<u8>, i: int) -> bool {
    &&& 0 <= i
    &&& i + target.len() <= source.len()
    &&& source.subrange(i, i + target.len()) == target
}

/// True when `target` occurs somewhere in `source`.
pub open spec fn contains_subseq(source: Seq<u8>, target: Seq<u8>) -> bool {
    exists|i: int| matches_at(source, target, i)
}

/// True when `p` is a prefix of `b`.
pub open spec fn starts_with(b: Seq<u8>, p: Seq<u8>) -> bool {
    p.len() <= b.len() && b.subrange(0, p.len() as int) == p
}

/// Position of the first occurrence of `target` in `source`, if any.
pub fn find_subsequence(source: &[u8], target: &[u8]) -> (r: Option<usize>)
    requires
        target@.len() >= 1,
    ensures
        match r {
            Some(i) => matches_at(source@, target@, i as int) && forall|j: int|
                0 <= j < i ==> !matches_at(source@, target@, j),
            None => !contains_subseq(source@, target@),
        },
{
    if target.len() > source.len() {
        assert(forall|j: int| !matches_at(source@, target@, j));
        return None;
    }
    let n = source.len();
    let last = n - target.len();
    let mut i: usize = 0;
    while i <= last
        invariant
            n == source@.len(),
            target@.len() >= 1,
            target@.len() <= source@.len(),
            last == source@.len() - target@.len(),
            i <= last + 1,
            forall|j: int| 0 <= j < i ==> !matches_at(source@, target@, j),
        decreases last + 1 - i,
    {
        let mut k: usize = 0;
        let mut mismatch = false;
        while k < target.len() && !mismatch
            invariant
                n == source@.len(),
                target@.len() <= source@.len(),
                i + target@.len() <= source@.len(),
                k <= target@.len(),
                !mismatch ==> forall|m: int| 0 <= m < k ==> source@[i + m] == target@[m],
                mismatch ==> !matches_at(source@, target@, i as int),
            decreases target@.len() - k + (if mismatch { 0int } else { 1int }),
        {
            if source[i + k] != target[k] {
                assert(!matches_at(source@, target@, i as int)) by {
                    if matches_at(source@, target@, i as int) {
                        assert(source@.subrange(i as int, i + target@.len())[k as int]
                            == target@[k as int]);
                    }
                }
                mismatch = true;
            } else {
                k = k + 1;
            }
        }
        if !mismatch {
            assert(source@.subrange(i as int, i + target@.len()) =~= target@);
            return Some(i);
        }
        i = i + 1;
    }
    assert(forall|j: int| !matches_at(source@, target@, j));
    None
}

/// How a magic pattern is matched against a candidate file's bytes.
#[derive(Copy, Clone, PartialEq, Eq, Debug, Structural)]
pub enum MatchMode {
    /// The pattern must stand at the very start of the file.
    Prefix,
    /// The pattern may stand anywhere in the file.
    Contains,
}

/// One entry of the format registry: a magic byte pattern, how it is
/// matched, and the format it identifies.
pub struct MagicSignature {
    pub pattern: Vec<u8>,
    pub match_mode: MatchMode,
    pub format: FileType,
}

/// The BZIP2 stream magic, `BZh`.
pub open spec fn bz2_magic() -> Seq<u8> {
    seq![66u8, 90u8, 104u8]
}

/// The GZIP member magic.
pub open spec fn gz_magic() -> Seq<u8> {
    seq![0x1fu8, 0x8bu8]
}

/// The ZIP local-file-header magic, `PK\x03\x04`.
pub open spec fn zip_magic() -> Seq<u8> {
    seq![0x50u8, 0x4bu8, 0x03u8, 0x04u8]
}

/// The USTAR header magic, `ustar`, which has no fixed universal offset.
pub open spec fn tar_magic() -> Seq<u8> {
    seq![0x75u8, 0x73u8, 0x74u8, 0x61u8, 0x72u8]
}

/// The fixed-prefix sub-table of the format registry, in registration order.
pub fn prefix_signatures() -> (r: Vec<MagicSignature>)
    ensures
        r@.len() == 3,
        r@[0].pattern@ == bz2_magic() && r@[0].match_mode is Prefix && r@[0].format is Bz2,
        r@[1].pattern@ == gz_magic() && r@[1].match_mode is Prefix && r@[1].format is Gz,
        r@[2].pattern@ == zip_magic() && r@[2].match_mode is Prefix && r@[2].format is Zip,
{
    let mut r: Vec<MagicSignature> = Vec::new();
    let mut p0: Vec<u8> = Vec::new();
    p0.push(66u8);
    p0.push(90u8);
    p0.push(104u8);
    assert(p0@ =~= bz2_magic());
    r.push(MagicSignature { pattern: p0, match_mode: MatchMode::Prefix, format: FileType::Bz2 });
    let mut p1: Vec<u8> = Vec::new();
    p1.push(0x1fu8);
    p1.push(0x8bu8);
    assert(p1@ =~= gz_magic());
    r.push(MagicSignature { pattern: p1, match_mode: MatchMode::Prefix, format: FileType::Gz });
    let mut p2: Vec<u8> = Vec::new();
    p2.push(0x50u8);
    p2.push(0x4bu8);
    p2.push(0x03u8);
    p2.push(0x04u8);
    assert(p2@ =~= zip_magic());
    r.push(MagicSignature { pattern: p2, match_mode: MatchMode::Prefix, format: FileType::Zip });
    r
}

/// The scan-required sub-table of the format registry: formats whose
/// signature must be located by substring search over the whole file.
pub fn scan_signatures() -> (r: Vec<MagicSignature>)
    ensures
        r@.len() == 1,
        r@[0].pattern@ == tar_magic() && r@[0].match_mode is Contains && r@[0].format is Tar,
{
    let mut r: Vec<MagicSignature> = Vec::new();
    let mut p0: Vec<u8> = Vec::new();
    p0.push(0x75u8);
    p0.push(0x73u8);
    p0.push(0x74u8);
    p0.push(0x61u8);
    p0.push(0x72u8);
    assert(p0@ =~= tar_magic());
    r.push(MagicSignature { pattern: p0, match_mode: MatchMode::Contains, format: FileType::Tar });
    r
}

/// The registry invariant: no two fixed-prefix patterns can both match one
/// probe buffer, so registration order never decides between two formats.
pub proof fn lemma_prefix_signatures_unambiguous(b: Seq<u8>)
    ensures
        !(starts_with(b, bz2_magic()) && starts_with(b, gz_magic())),
        !(starts_with(b, bz2_magic()) && starts_with(b, zip_magic())),
        !(starts_with(b, gz_magic()) && starts_with(b, zip_magic())),
{
    if starts_with(b, bz2_magic()) {
        assert(b.subrange(0, 3)[0] == 66u8);
    }
    if starts_with(b, gz_magic()) {
        assert(b.subrange(0, 2)[0] == 0x1fu8);
    }
    if starts_with(b, zip_magic()) {
        assert(b.subrange(0, 4)[0] == 0x50u8);
    }
}

/// What the sniffer resolves a byte stream to: the first fixed-prefix
/// signature that matches, else a whole-file scan for the USTAR magic,
/// else nothing.
pub open spec fn detect_spec(b: Seq<u8>) -> Option<FileType> {
    if starts_with(b, bz2_magic()) {
        Some(FileType::Bz2)
    } else if starts_with(b, gz_magic()) {
        Some(FileType::Gz)
    } else if starts_with(b, zip_magic()) {
        Some(FileType::Zip)
    } else if contains_subseq(b, tar_magic()) {
        Some(FileType::Tar)
    } else {
        None
    }
}

/// Does `b` start with the bytes of `p`?
fn slice_starts_with(b: &[u8], p: &[u8]) -> (r: bool)
    ensures
        r == starts_with(b@, p@),
{
    if p.len() > b.len() {
        return false;
    }
    let mut k: usize = 0;
    while k < p.len()
        invariant
            p@.len() <= b@.len(),
            k <= p@.len(),
            forall|m: int| 0 <= m < k ==> b@[m] == p@[m],
        decreases p@.len() - k,
    {
        if b[k] != p[k] {
            assert(!starts_with(b@, p@)) by {
                if starts_with(b@, p@) {
                    assert(b@.subrange(0, p@.len() as int)[k as int] == p@[k as int]);
                }
            }
            return false;
        }
        k = k + 1;
    }
    assert(b@.subrange(0, p@.len() as int) =~= p@);
    true
}

/// The format sniffer over a file's bytes: compare the leading bytes against
/// each fixed-prefix signature in registration order, then search the whole
/// content for each scan-required signature, first match winning; a file
/// matching no signature is unsupported.
pub fn get_file_type(data: &[u8]) -> (r: Result<FileType, PackError>)
    ensures
        match detect_spec(data@) {
            Some(f) => r == Result::<FileType, PackError>::Ok(f),
            None => r == Result::<FileType, PackError>::Err(PackError::UnsupportedFormat),
        },
{
    let prefixes = prefix_signatures();
    let mut i: usize = 0;
    while i < prefixes.len()
        invariant
            prefixes@.len() == 3,
            prefixes@[0].pattern@ == bz2_magic() && prefixes@[0].format is Bz2,
            prefixes@[1].pattern@ == gz_magic() && prefixes@[1].format is Gz,
            prefixes@[2].pattern@ == zip_magic() && prefixes@[2].format is Zip,
            i <= 3,
            forall|j: int| 0 <= j < i ==> !starts_with(data@, prefixes@[j].pattern@),
        decreases prefixes@.len() - i,
    {
        if slice_starts_with(data, prefixes[i].pattern.as_slice()) {
            return Ok(prefixes[i].format);
        }
        i = i + 1;
    }
    let scans = scan_signatures();
    let mut s: usize = 0;
    while s < scans.len()
        invariant
            scans@.len() == 1,
            scans@[0].pattern@ == tar_magic() && scans@[0].format is Tar,
            s <= 1,
            !starts_with(data@, bz2_magic()),
            !starts_with(data@, gz_magic()),
            !starts_with(data@, zip_magic()),
            forall|j: int| 0 <= j < s ==> !contains_subseq(data@, scans@[j].pattern@),
        decreases scans@.len() - s,
    {
        if find_subsequence(data, scans[s].pattern.as_slice()).is_some() {
            return Ok(scans[s].format);
        }
        s = s + 1;
    }
    Err(PackError::UnsupportedFormat)
}

/// A file beginning with a fixed-prefix signature is detected as that
/// signature's format, whatever else it contains: the prefix patterns are
/// mutually exclusive, and the whole-file scan runs only after them.
pub proof fn lemma_detect_fixed_prefixes(b: Seq<u8>)
    ensures
        starts_with(b, zip_magic()) ==> detect_spec(b) == Some(FileType::Zip),
        starts_with(b, gz_magic()) ==> detect_spec(b) == Some(FileType::Gz),
        starts_with(b, bz2_magic()) ==> detect_spec(b) == Some(FileType::Bz2),
{
    lemma_prefix_signatures_unambiguous(b);
}

/// A file that begins with no fixed-prefix signature and contains the
/// USTAR magic anywhere is detected as TAR.
pub proof fn lemma_detect_tar(b: Seq<u8>)
    requires
        !starts_with(b, bz2_magic()),
        !starts_with(b, gz_magic()),
        !starts_with(b, zip_magic()),
        contains_subseq(b, tar_magic()),
    ensures
        detect_spec(b) == Some(FileType::Tar),
{
}

/// A file whose leading bytes match no fixed-prefix signature and which
/// contains no USTAR magic matches nothing: detection reports it
/// unsupported.
pub proof fn lemma_detect_unsupported(b: Seq<u8>)
    requires
        !starts_with(b, bz2_magic()),
        !starts_with(b, gz_magic()),
        !starts_with(b, zip_magic()),
        !contains_subseq(b, tar_magic()),
    ensures
        detect_spec(b) == None::<FileType>,
{
}

/// What a pack operation consumes: the single-stream formats take one
/// byte stream, the container formats an in-memory tree.
pub enum PackSource {
    Stream(Vec<u8>),
    Tree(Vec<ArchiveEntry>),
}

/// What an unpack operation produces: one byte stream for the
/// single-stream formats, an in-memory tree for the container formats.
#[derive(Debug, PartialEq, Eq)]
pub enum Unpacked {
    Stream(Vec<u8>),
    Tree(Vec<ArchiveEntry>),
}

/// The mathematical shape of a payload: a byte stream or a tree of entry
/// models.
pub ghost enum PayloadModel {
    Stream(Seq<u8>),
    Tree(Seq<EntryModel>),
}

impl View for PackSource {
    type V = PayloadModel;

    open spec fn view(&self) -> PayloadModel {
        match self {
            PackSource::Stream(v) => PayloadModel::Stream(v@),
            PackSource::Tree(t) => PayloadModel::Tree(seq_model(t@)),
        }
    }
}

impl View for Unpacked {
    type V = PayloadModel;

    open spec fn view(&self) -> PayloadModel {
        match self {
            Unpacked::Stream(v) => PayloadModel::Stream(v@),
            Unpacked::Tree(t) => PayloadModel::Tree(seq_model(t@)),
        }
    }
}

/// The container formats pack a tree; GZIP and BZIP2 pack one stream.
pub open spec fn format_takes_tree(f: FileType) -> bool {
    f is Zip || f is Tar || f is Tarbz2 || f is Targz
}

/// The payload has the shape the format packs.
pub open spec fn source_matches(f: FileType, s: PayloadModel) -> bool {
    if format_takes_tree(f) {
        s is Tree
    } else {
        s is Stream
    }
}

/// The payload is one the format's codec stores and gives back unchanged.
pub open spec fn source_wf(f: FileType, s: PayloadModel) -> bool {
    match s {
        PayloadModel::Stream(_) => true,
        PayloadModel::Tree(es) => if f is Zip {
            entries_wf_zip(es)
        } else {
            entries_wf_tar(es)
        },
    }
}

/// Every path of the payload passes the path-safety validator.
pub open spec fn payload_safe(s: PayloadModel) -> bool {
    match s {
        PayloadModel::Stream(_) => true,
        PayloadModel::Tree(es) => entries_safe(es),
    }
}

/// The artifact bytes packing a payload in a given format produces.
pub open spec fn pack_bytes(f: FileType, s: PayloadModel) -> Seq<u8> {
    match (f, s) {
        (FileType::Gz, PayloadModel::Stream(b)) => gzip_of(b),
        (FileType::Bz2, PayloadModel::Stream(b)) => bzip_of(b),
        (FileType::Zip, PayloadModel::Tree(es)) => zip_bytes_of(zip_raw_seq(es)),
        (FileType::Tar, PayloadModel::Tree(es)) => tar_bytes_of(tar_raw_seq(es)),
        (FileType::Targz, PayloadModel::Tree(es)) => gzip_of(tar_bytes_of(tar_raw_seq(es))),
        (FileType::Tarbz2, PayloadModel::Tree(es)) => bzip_of(tar_bytes_of(tar_raw_seq(es))),
        _ => Seq::<u8>::empty(),
    }
}

/// The dispatcher for packing: route the payload to the format's codec
/// adapter and hand its outcome through unchanged. Every well-formed
/// payload packs; a payload its codec cannot store is refused.
pub fn compress(file_type: FileType, src: &PackSource) -> (r: Result<Vec<u8>, PackError>)
    requires
        source_matches(file_type, src@),
    ensures
        r matches Ok(v) ==> v@ == pack_bytes(file_type, src@),
        r matches Err(e) ==> e == PackError::IoFailure && !source_wf(file_type, src@),
        source_wf(file_type, src@) ==> r is Ok,
{
    match (file_type, src) {
        (FileType::Gz, PackSource::Stream(data)) => Ok(gz::compress(data.as_slice())),
        (FileType::Bz2, PackSource::Stream(data)) => Ok(bz2::compress(data.as_slice())),
        (FileType::Zip, PackSource::Tree(entries)) => zip::compress(entries),
        (FileType::Tar, PackSource::Tree(entries)) => tar::compress(entries),
        (FileType::Targz, PackSource::Tree(entries)) => tar_gz::compress(entries),
        (FileType::Tarbz2, PackSource::Tree(entries)) => tar_bz2::compress(entries),
        _ => {
            proof {
                assert(false);
            }
            Err(PackError::IoFailure)
        },
    }
}

/// The payload a fallible unpack handed back, if it succeeded.
pub open spec fn unpacked_models(r: Result<Unpacked, PackError>) -> Option<PayloadModel> {
    match r {
        Ok(u) => Some(u@),
        Err(_) => None,
    }
}

/// `out` is an acceptable unpack result for format `f` on bytes `data`:
/// whatever the paired pack produced for a well-formed payload whose paths
/// all pass the path-safety validator comes back as exactly that payload.
pub open spec fn unpack_roundtrip(f: FileType, data: Seq<u8>, out: Option<PayloadModel>) -> bool {
    forall|s: PayloadModel|
        source_matches(f, s) && source_wf(f, s) && payload_safe(s) && data == pack_bytes(f, s)
            ==> out == Some(s)
}

/// `r` rejects traversal: on bytes the paired pack produced for a
/// well-formed payload holding some path the validator refuses, the whole
/// unpack fails with a traversal error.
pub open spec fn unpack_rejects_traversal(
    f: FileType,
    data: Seq<u8>,
    r: Result<Unpacked, PackError>,
) -> bool {
    forall|s: PayloadModel|
        source_matches(f, s) && source_wf(f, s) && !payload_safe(s) && data == pack_bytes(f, s)
            ==> r == Err::<Unpacked, PackError>(PackError::PathTraversalRejected)
}

/// The dispatcher for unpacking: route the bytes to the format's codec
/// adapter and hand its outcome through unchanged. Container formats check
/// every entry against the path-safety validator, so a returned tree is
/// safe; unpacking what the paired pack produced for a well-formed, safe
/// payload returns exactly that payload, and a packed payload with an
/// unsafe path is rejected as a traversal.
pub fn decompress(file_type: FileType, data: &[u8]) -> (r: Result<Unpacked, PackError>)
    ensures
        r matches Ok(u) ==> payload_safe(u@) && source_matches(file_type, u@),
        unpack_roundtrip(file_type, data@, unpacked_models(r)),
        unpack_rejects_traversal(file_type, data@, r),
{
    match file_type {
        FileType::Gz => {
            let inner = gz::decompress(data);
            proof {
                assert forall|s: PayloadModel|
                    source_matches(file_type, s) && source_wf(file_type, s) && payload_safe(s)
                        && data@ == pack_bytes(file_type, s) implies match inner {
                    Ok(v) => Some(PayloadModel::Stream(v@)) == Some(s),
                    Err(_) => false,
                } by {
                    let b = s->Stream_0;
                    assert(crate::modules::compression::ok_bytes(inner) == Some(b));
                }
            }
            match inner {
                Ok(v) => Ok(Unpacked::Stream(v)),
                Err(e) => Err(e),
            }
        },
        FileType::Bz2 => {
            let inner = bz2::decompress(data);
            proof {
                assert forall|s: PayloadModel|
                    source_matches(file_type, s) && source_wf(file_type, s) && payload_safe(s)
                        && data@ == pack_bytes(file_type, s) implies match inner {
                    Ok(v) => Some(PayloadModel::Stream(v@)) == Some(s),
                    Err(_) => false,
                } by {
                    let b = s->Stream_0;
                    assert(crate::modules::compression::ok_bytes(inner) == Some(b));
                }
            }
            match inner {
                Ok(v) => Ok(Unpacked::Stream(v)),
                Err(e) => Err(e),
            }
        },
        FileType::Zip => {
            let inner = zip::decompress(data);
            proof {
                assert forall|s: PayloadModel|
                    source_matches(file_type, s) && source_wf(file_type, s) && !payload_safe(s)
                        && data@ == pack_bytes(file_type, s) implies inner == Err::<
                    Vec<ArchiveEntry>,
                    PackError,
                >(PackError::PathTraversalRejected) by {
                    let es = s->Tree_0;
                    assert(crate::modules::compression::zip::zip_unpack_rejects(data@, inner));
                }
            }
            match inner {
                Ok(t) => Ok(Unpacked::Tree(t)),
                Err(e) => Err(e),
            }
        },
        FileType::Tar => {
            let inner = tar::decompress(data);
            proof {
                assert forall|s: PayloadModel|
                    source_matches(file_type, s) && source_wf(file_type, s) && !payload_safe(s)
                        && data@ == pack_bytes(file_type, s) implies false by {
                    let es = s->Tree_0;
                    let j = choose|j: int| 0 <= j < es.len() && !entry_safe(#[trigger] es[j]);
                    assert(entry_wf_tar(es[j]));
                    lemma_tar_path_ok_implies_safe(es[j].path);
                }
            }
            match inner {
                Ok(t) => Ok(Unpacked::Tree(t)),
                Err(e) => Err(e),
            }
        },
        FileType::Targz => {
            let inner = tar_gz::decompress(data);
            proof {
                assert forall|s: PayloadModel|
                    source_matches(file_type, s) && source_wf(file_type, s) && !payload_safe(s)
                        && data@ == pack_bytes(file_type, s) implies false by {
                    let es = s->Tree_0;
                    let j = choose|j: int| 0 <= j < es.len() && !entry_safe(#[trigger] es[j]);
                    assert(entry_wf_tar(es[j]));
                    lemma_tar_path_ok_implies_safe(es[j].path);
                }
            }
            match inner {
                Ok(t) => Ok(Unpacked::Tree(t)),
                Err(e) => Err(e),
            }
        },
        FileType::Tarbz2 => {
            let inner = tar_bz2::decompress(data);
            proof {
                assert forall|s: PayloadModel|
                    source_matches(file_type, s) && source_wf(file_type, s) && !payload_safe(s)
                        && data@ == pack_bytes(file_type, s) implies false by {
                    let es = s->Tree_0;
                    let j = choose|j: int| 0 <= j < es.len() && !entry_safe(#[trigger] es[j]);
                    assert(entry_wf_tar(es[j]));
                    lemma_tar_path_ok_implies_safe(es[j].path);
                }
            }
            match inner {
                Ok(t) => Ok(Unpacked::Tree(t)),
                Err(e) => Err(e),
            }
        },
    }
}

} // verus!
