use vstd::prelude::*;
use vstd::string::StringSliceAdditionalSpecFns;
use vstd::utf8::encode_utf8_valid_utf8;

use std::io::Read;

use crate::errors::PackError;
use crate::modules::compression::archive::bytes_to_string;
use crate::modules::compression::archive::check_tar_path;
use crate::modules::compression::archive::entries_safe;
use crate::modules::compression::archive::entries_wf_tar;
use crate::modules::compression::archive::entry_of_raw;
use crate::modules::compression::archive::entry_safe;
use crate::modules::compression::archive::entry_wf_tar;
use crate::modules::compression::archive::ok_models;
use crate::modules::compression::archive::seq_model;
use crate::modules::compression::archive::tar_path_ok;
use crate::modules::compression::archive::ArchiveEntry;
use crate::modules::compression::archive::EntryKind;
use crate::modules::compression::archive::EntryModel;
use crate::utils::bytes_path_is_safe;

verus! {

/// An in-memory TAR archive under construction; wraps the tar crate's
/// builder over a Vec sink, which Verus sees only through
/// `tar_builder_model`.
#[verifier::external_body]
pub struct TarBuilder {
    inner: tar::Builder<Vec<u8>>,
}

/// A TAR archive opened over a byte slice; Verus sees only the bytes it
/// was opened over, through `tar_archive_data`.
#[verifier::external_body]
pub struct TarReader<'a> {
    inner: tar::Archive<&'a [u8]>,
}

/// A cursor over the entries of an opened TAR archive; Verus sees only
/// what iterating it will yield, through `tar_entries_model`.
#[verifier::external_body]
pub struct TarEntryCursor<'b, 'a> {
    inner: tar::Entries<'b, &'a [u8]>,
}

/// One entry as the TAR container stores it: stored path bytes, a
/// directory flag, and the contents.
pub struct TarRawEntry {
    pub path: Vec<u8>,
    pub is_dir: bool,
    pub data: Vec<u8>,
}

impl View for TarRawEntry {
    type V = (Seq<u8>, bool, Seq<u8>);

    open spec fn view(&self) -> (Seq<u8>, bool, Seq<u8>) {
        (self.path@, self.is_dir, self.data@)
    }
}

/// The archive bytes tar's builder produces for a sequence of appended
/// entries: a pure function of the entries, since the headers it writes
/// carry fixed metadata (zero mtime, fixed modes and ids).
pub uninterp spec fn tar_bytes_of(es: Seq<(Seq<u8>, bool, Seq<u8>)>) -> Seq<u8>;

/// The entries appended to a builder so far.
pub uninterp spec fn tar_builder_model(b: TarBuilder) -> Seq<(Seq<u8>, bool, Seq<u8>)>;

/// The bytes an archive reader was opened over.
pub uninterp spec fn tar_archive_data(a: TarReader) -> Seq<u8>;

/// What iterating an entry cursor to its end will yield: `Some(remaining)`
/// when iteration ends cleanly, `None` when it will fail.
pub uninterp spec fn tar_entries_model(it: TarEntryCursor) -> Option<
    Seq<(Seq<u8>, bool, Seq<u8>)>,
>;

/// The wire form of one entry: its path bytes, its kind as a flag, and
/// (for files) its contents.
pub open spec fn tar_raw_of(e: EntryModel) -> (Seq<u8>, bool, Seq<u8>) {
    (
        e.path,
        e.kind is Directory,
        if e.kind is Directory {
            Seq::<u8>::empty()
        } else {
            e.content
        },
    )
}

/// The wire form of a tree.
pub open spec fn tar_raw_seq(es: Seq<EntryModel>) -> Seq<(Seq<u8>, bool, Seq<u8>)> {
    es.map_values(|e: EntryModel| tar_raw_of(e))
}

/// A wire triple of a well-formed entry stands for that entry again.
proof fn lemma_raw_roundtrip(es: Seq<EntryModel>)
    requires
        entries_wf_tar(es),
    ensures
        tar_raw_seq(es).map_values(|t: (Seq<u8>, bool, Seq<u8>)| entry_of_raw(t)) == es,
{
    let mapped = tar_raw_seq(es).map_values(|t: (Seq<u8>, bool, Seq<u8>)| entry_of_raw(t));
    assert forall|i: int| 0 <= i < es.len() implies mapped[i] == es[i] by {
        assert(entry_wf_tar(es[i]));
    }
    assert(mapped =~= es);
}

/// `post` relates to `pre` as one append of `raw` relates a builder's
/// entries, when the append returned `r`: a storable path is appended
/// byte-for-byte and cannot fail.
pub open spec fn tar_append_ok(
    pre: Seq<(Seq<u8>, bool, Seq<u8>)>,
    post: Seq<(Seq<u8>, bool, Seq<u8>)>,
    raw: (Seq<u8>, bool, Seq<u8>),
    r: Result<(), std::io::Error>,
) -> bool {
    tar_path_ok(raw.0) ==> r is Ok && post == pre.push(raw)
}

/// `r` is an acceptable outcome of opening an entry cursor over `data`:
/// on bytes the paired builder produced for `es`, the cursor opens, will
/// yield exactly `es` and end cleanly, and (each entry occupying at least
/// one 512-byte block) `es` holds fewer entries than `data` has bytes.
pub open spec fn tar_open_ok(
    data: Seq<u8>,
    r: Result<TarEntryCursor, std::io::Error>,
) -> bool {
    forall|es: Seq<(Seq<u8>, bool, Seq<u8>)>|
        data == tar_bytes_of(es) ==> (r matches Ok(it) && tar_entries_model(it) == Some(es)
            && 512 * es.len() <= data.len())
}

/// `r` and the new cursor model `m2` are an acceptable outcome of one
/// iteration step from a cursor whose model was `m`: on a clean remainder
/// the next stored entry comes back exactly, and after the last one the
/// cursor reports a clean end.
pub open spec fn tar_next_ok(
    m: Option<Seq<(Seq<u8>, bool, Seq<u8>)>>,
    m2: Option<Seq<(Seq<u8>, bool, Seq<u8>)>>,
    r: Result<Option<TarRawEntry>, std::io::Error>,
) -> bool {
    m matches Some(es) ==> {
        &&& es.len() > 0 ==> (r matches Ok(o) && o matches Some(e) && e@ == es[0] && m2 == Some(
            es.drop_first(),
        ))
        &&& es.len() == 0 ==> (r matches Ok(o) && o is None)
    }
}

/// Relies on tar::Builder::new: a fresh builder holds no entries.
#[verifier::external_body]
fn tar_builder_new() -> (b: TarBuilder)
    ensures
        tar_builder_model(b) == Seq::<(Seq<u8>, bool, Seq<u8>)>::empty(),
{
    TarBuilder { inner: tar::Builder::new(Vec::new()) }
}

/// Relies on tar::Builder::append_data with a fresh GNU header: a storable
/// relative path is stored byte-for-byte (long paths through the GNU
/// long-name extension) with the given contents, and writing into a Vec
/// sink cannot fail.
#[verifier::external_body]
fn tar_append_file(b: &mut TarBuilder, path: &str, data: &[u8]) -> (r: Result<
    (),
    std::io::Error,
>)
    ensures
        tar_append_ok(
            tar_builder_model(*old(b)),
            tar_builder_model(*final(b)),
            (path.spec_bytes(), false, data@),
            r,
        ),
{
    let mut header = tar::Header::new_gnu();
    header.set_mode(0o644);
    header.set_size(data.len() as u64);
    header.set_entry_type(tar::EntryType::file());
    b.inner.append_data(&mut header, path, data)
}

/// Relies on tar::Builder::append_data with a directory-typed GNU header:
/// as for files, with no contents.
#[verifier::external_body]
fn tar_append_dir(b: &mut TarBuilder, path: &str) -> (r: Result<(), std::io::Error>)
    ensures
        tar_append_ok(
            tar_builder_model(*old(b)),
            tar_builder_model(*final(b)),
            (path.spec_bytes(), true, Seq::<u8>::empty()),
            r,
        ),
{
    let mut header = tar::Header::new_gnu();
    header.set_mode(0o755);
    header.set_size(0);
    header.set_entry_type(tar::EntryType::dir());
    b.inner.append_data(&mut header, path, std::io::empty())
}

/// Relies on tar::Builder::into_inner: finishing writes the closing zero
/// blocks into the Vec sink, which cannot fail, and hands back the archive
/// bytes for the appended entries.
#[verifier::external_body]
fn tar_finish(b: TarBuilder) -> (r: Vec<u8>)
    ensures
        r@ == tar_bytes_of(tar_builder_model(b)),
{
    b.inner.into_inner().expect("tar finish failed")
}

/// Relies on tar::Archive::new: wraps the byte slice without reading it.
#[verifier::external_body]
fn tar_archive_new<'a>(data: &'a [u8]) -> (a: TarReader<'a>)
    ensures
        tar_archive_data(a) == data@,
{
    TarReader { inner: tar::Archive::new(data) }
}

/// Relies on tar::Archive::entries: opens an entry cursor at the start of
/// the archive.
#[verifier::external_body]
fn tar_archive_entries<'b, 'a>(a: &'b mut TarReader<'a>) -> (r: Result<
    TarEntryCursor<'b, 'a>,
    std::io::Error,
>)
    ensures
        tar_open_ok(tar_archive_data(*old(a)), r),
{
    match a.inner.entries() {
        Ok(it) => Ok(TarEntryCursor { inner: it }),
        Err(e) => Err(e),
    }
}

/// Relies on tar::Entries::next and tar::Entry (entry_type, path_bytes,
/// read_to_end): one iteration step, converting the yielded entry to its
/// stored path bytes, kind flag and contents.
#[verifier::external_body]
fn tar_next(it: &mut TarEntryCursor<'_, '_>) -> (r: Result<Option<TarRawEntry>, std::io::Error>)
    ensures
        tar_next_ok(tar_entries_model(*old(it)), tar_entries_model(*final(it)), r),
{
    match it.inner.next() {
        None => Ok(None),
        Some(Err(e)) => Err(e),
        Some(Ok(mut entry)) => {
            let is_dir = entry.header().entry_type().is_dir();
            let path = entry.path_bytes().into_owned();
            let mut data = Vec::new();
            entry.read_to_end(&mut data)?;
            Ok(Some(TarRawEntry { path, is_dir, data }))
        },
    }
}

/// Pack an in-memory tree as an uncompressed TAR archive, appending each
/// entry in order. Exactly the well-formed trees are packed; a tree with a
/// path the TAR format cannot store byte-for-byte, or contents on a
/// directory, is refused.
pub fn compress(entries: &Vec<ArchiveEntry>) -> (r: Result<Vec<u8>, PackError>)
    ensures
        r matches Ok(v) ==> entries_wf_tar(seq_model(entries@)) && v@ == tar_bytes_of(
            tar_raw_seq(seq_model(entries@)),
        ),
        r matches Err(e) ==> e == PackError::IoFailure && !entries_wf_tar(seq_model(entries@)),
{
    let ghost models = seq_model(entries@);
    let mut b = tar_builder_new();
    let n = entries.len();
    let mut i: usize = 0;
    assert(tar_builder_model(b) =~= tar_raw_seq(models).take(0));
    while i < n
        invariant
            n == entries@.len(),
            i <= n,
            models == seq_model(entries@),
            tar_builder_model(b) == tar_raw_seq(models).take(i as int),
            forall|j: int| 0 <= j < i ==> entry_wf_tar(#[trigger] models[j]),
        decreases n - i,
    {
        let e = &entries[i];
        let ps = e.path.as_str();
        if !check_tar_path(ps.as_bytes()) {
            assert(!entry_wf_tar(models[i as int]));
            return Err(PackError::IoFailure);
        }
        proof {
            encode_utf8_valid_utf8(e.path@);
        }
        let res = match e.kind {
            EntryKind::File => tar_append_file(&mut b, ps, e.content.as_slice()),
            EntryKind::Directory => {
                if e.content.len() > 0 {
                    assert(!entry_wf_tar(models[i as int]));
                    return Err(PackError::IoFailure);
                }
                assert(e.content@ =~= Seq::<u8>::empty());
                tar_append_dir(&mut b, ps)
            },
        };
        match res {
            Ok(_) => {},
            Err(_) => {
                return Err(PackError::IoFailure);
            },
        }
        proof {
            assert(entry_wf_tar(models[i as int]));
            assert(tar_raw_seq(models)[i as int] == tar_raw_of(models[i as int]));
            assert(tar_raw_seq(models).take(i as int).push(tar_raw_of(models[i as int]))
                =~= tar_raw_seq(models).take(i + 1));
        }
        i = i + 1;
    }
    assert(tar_raw_seq(models).take(n as int) =~= tar_raw_seq(models));
    assert(entries_wf_tar(models));
    let out = tar_finish(b);
    Ok(out)
}

/// `out` is an acceptable unpack result for the archive bytes `data`: on
/// bytes the paired packer produced for a well-formed tree whose paths all
/// pass the path-safety validator, exactly that tree comes back.
pub open spec fn tar_unpack_roundtrip(data: Seq<u8>, out: Option<Seq<EntryModel>>) -> bool {
    forall|es: Seq<EntryModel>|
        entries_wf_tar(es) && entries_safe(es) && data == tar_bytes_of(tar_raw_seq(es)) ==> out
            == Some(es)
}

/// Unpack an uncompressed TAR archive into an in-memory tree. Every entry
/// the archive yields is checked against the path-safety validator before
/// it is accepted: an unsafe entry aborts the unpack with a traversal
/// error, so every tree this function returns is safe. An archive the
/// paired packer produced for a well-formed, safe tree unpacks to exactly
/// that tree.
pub fn decompress(data: &[u8]) -> (r: Result<Vec<ArchiveEntry>, PackError>)
    ensures
        r matches Ok(v) ==> entries_safe(seq_model(v@)),
        tar_unpack_roundtrip(data@, ok_models(r)),
{
    let mut archive = tar_archive_new(data);
    let ent_res = tar_archive_entries(&mut archive);
    let mut it = match ent_res {
        Ok(it) => it,
        Err(_) => {
            proof {
                assert forall|es: Seq<EntryModel>|
                    entries_wf_tar(es) && entries_safe(es) && data@ == tar_bytes_of(
                        tar_raw_seq(es),
                    ) implies false by {
                    assert(tar_open_ok(data@, ent_res));
                }
            }
            return Err(PackError::MalformedArchive);
        },
    };
    let ghost m0 = tar_entries_model(it);
    proof {
        assert forall|esr: Seq<(Seq<u8>, bool, Seq<u8>)>|
            data@ == tar_bytes_of(esr) implies m0 == Some(esr) && 512 * esr.len()
            <= data@.len() by {
            assert(tar_open_ok(data@, ent_res));
        }
    }
    let mut out: Vec<ArchiveEntry> = Vec::new();
    let max_steps = data.len() / 512 + 1;
    let mut steps: usize = 0;
    while steps < max_steps
        invariant
            max_steps == data@.len() / 512 + 1,
            steps <= max_steps,
            forall|esr: Seq<(Seq<u8>, bool, Seq<u8>)>| data@ == tar_bytes_of(esr)
                ==> m0 == Some(esr) && 512 * esr.len() <= data@.len(),
            m0 matches Some(rs) ==> steps <= rs.len() && tar_entries_model(it) == Some(
                rs.skip(steps as int),
            ) && seq_model(out@) == rs.take(steps as int).map_values(
                |t: (Seq<u8>, bool, Seq<u8>)| entry_of_raw(t),
            ),
            entries_safe(seq_model(out@)),
        decreases max_steps - steps,
    {
        let step_res = tar_next(&mut it);
        match step_res {
            Err(_) => {
                return Err(PackError::MalformedArchive);
            },
            Ok(None) => {
                proof {
                    assert forall|es: Seq<EntryModel>|
                        entries_wf_tar(es) && entries_safe(es) && data@ == tar_bytes_of(
                            tar_raw_seq(es),
                        ) implies seq_model(out@) == es by {
                        let rs = tar_raw_seq(es);
                        assert(m0 == Some(rs));
                        assert(rs.skip(steps as int).len() == 0);
                        assert(steps == rs.len());
                        assert(rs.take(steps as int) =~= rs);
                        lemma_raw_roundtrip(es);
                    }
                }
                return Ok(out);
            },
            Ok(Some(raw)) => {
                if !bytes_path_is_safe(raw.path.as_slice()) {
                    proof {
                        assert forall|es: Seq<EntryModel>|
                            entries_wf_tar(es) && entries_safe(es) && data@ == tar_bytes_of(
                                tar_raw_seq(es),
                            ) implies false by {
                            let rs = tar_raw_seq(es);
                            assert(m0 == Some(rs));
                            assert(rs.skip(steps as int)[0] == rs[steps as int]);
                            assert(entry_safe(es[steps as int]));
                        }
                    }
                    return Err(PackError::PathTraversalRejected);
                }
                let ghost raw_model = raw@;
                let TarRawEntry { path, is_dir, data: content } = raw;
                match bytes_to_string(path) {
                    None => {
                        proof {
                            assert forall|es: Seq<EntryModel>|
                                entries_wf_tar(es) && entries_safe(es) && data@ == tar_bytes_of(
                                    tar_raw_seq(es),
                                ) implies false by {
                                let rs = tar_raw_seq(es);
                                assert(m0 == Some(rs));
                                assert(rs.skip(steps as int)[0] == rs[steps as int]);
                                assert(entry_wf_tar(es[steps as int]));
                            }
                        }
                        return Err(PackError::MalformedArchive);
                    },
                    Some(path_string) => {
                        let entry = ArchiveEntry {
                            path: path_string,
                            kind: if is_dir {
                                EntryKind::Directory
                            } else {
                                EntryKind::File
                            },
                            content,
                        };
                        assert(entry@ == entry_of_raw(raw_model));
                        assert(entry_safe(entry@));
                        let ghost prev_out = out@;
                        out.push(entry);
                        proof {
                            assert(seq_model(out@) =~= seq_model(prev_out).push(entry@));
                            assert(entries_safe(seq_model(out@)));
                            match m0 {
                                Some(rs) => {
                                    assert(rs.skip(steps as int)[0] == rs[steps as int]);
                                    assert(rs.skip(steps as int).drop_first() =~= rs.skip(
                                        steps as int + 1,
                                    ));
                                    assert(rs.take(steps as int + 1) =~= rs.take(
                                        steps as int,
                                    ).push(rs[steps as int]));
                                    assert(seq_model(out@) =~= rs.take(
                                        steps as int + 1,
                                    ).map_values(|t: (Seq<u8>, bool, Seq<u8>)| entry_of_raw(t)));
                                },
                                None => {},
                            }
                        }
                        steps = steps + 1;
                    },
                }
            },
        }
    }
    proof {
        assert forall|es: Seq<EntryModel>|
            entries_wf_tar(es) && entries_safe(es) && data@ == tar_bytes_of(
                tar_raw_seq(es),
            ) implies false by {
            let rs = tar_raw_seq(es);
            assert(m0 == Some(rs));
            assert(512 * rs.len() <= data@.len());
            assert(steps <= rs.len());
            assert(rs.len() <= data@.len() / 512) by (nonlinear_arith)
                requires
                    512 * rs.len() <= data@.len(),
            ;
        }
    }
    Err(PackError::MalformedArchive)
}

} // verus!
