use vstd::prelude::*;
use vstd::slice::slice_subrange;
use vstd::slice::slice_to_vec;
use vstd::string::StringSliceAdditionalSpecFns;
use vstd::utf8::encode_utf8;
use vstd::utf8::encode_utf8_valid_utf8;

use std::io::Read;
use std::io::Write;

use crate::errors::PackError;
use crate::modules::compression::archive::bytes_to_string;
use crate::modules::compression::archive::entries_safe;
use crate::modules::compression::archive::entries_wf_zip;
use crate::modules::compression::archive::entry_safe;
use crate::modules::compression::archive::entry_wf_zip;
use crate::modules::compression::archive::ok_models;
use crate::modules::compression::archive::seq_model;
use crate::modules::compression::archive::zip_entries_each_wf;
use crate::modules::compression::archive::zip_names_distinct;
use crate::modules::compression::archive::zip_stored_name;
use crate::modules::compression::archive::ArchiveEntry;
use crate::modules::compression::archive::EntryKind;
use crate::modules::compression::archive::EntryModel;
use crate::utils::bytes_path_is_safe;
use crate::utils::dotdot_component_at;
use crate::utils::has_dotdot_component;
use crate::utils::path_is_safe;

verus! {

/// An in-memory ZIP archive under construction; wraps the zip crate's
/// writer over a Vec-backed cursor, which Verus sees only through
/// `zip_writer_model`.
#[verifier::external_body]
pub struct ZipTreeWriter {
    inner: zip::ZipWriter<std::io::Cursor<Vec<u8>>>,
}

/// A ZIP archive opened for reading; Verus sees only what reading it by
/// index will yield, through `zip_reader_model`.
#[verifier::external_body]
pub struct ZipTreeReader {
    inner: zip::ZipArchive<std::io::Cursor<Vec<u8>>>,
}

/// One entry as the ZIP container stores it: the stored name, whether the
/// container reads it back as a directory, and the contents.
pub struct ZipRawEntry {
    pub name: String,
    pub is_dir: bool,
    pub data: Vec<u8>,
}

impl View for ZipRawEntry {
    type V = (Seq<u8>, bool, Seq<u8>);

    open spec fn view(&self) -> (Seq<u8>, bool, Seq<u8>) {
        (encode_utf8(self.name@), self.is_dir, self.data@)
    }
}

/// The archive bytes the zip writer produces for a sequence of stored
/// entries (name and contents): a pure function of the entries, since the
/// writer is used with fixed options (stored method, fixed permissions and
/// date, Unix origin).
pub uninterp spec fn zip_bytes_of(es: Seq<(Seq<u8>, Seq<u8>)>) -> Seq<u8>;

/// The entries written to a zip writer so far.
pub uninterp spec fn zip_writer_model(w: ZipTreeWriter) -> Seq<(Seq<u8>, Seq<u8>)>;

/// What reading an opened archive by index will yield: `Some(entries)`
/// when every entry can be read, `None` when some read will fail.
pub uninterp spec fn zip_reader_model(a: ZipTreeReader) -> Option<Seq<(Seq<u8>, Seq<u8>)>>;

/// The container reads a stored name back as a directory when it ends in
/// a separator.
pub open spec fn spec_zip_is_dir(n: Seq<u8>) -> bool {
    n.len() > 0 && (n[n.len() - 1] == 47u8 || n[n.len() - 1] == 92u8)
}

/// The name under which `add_directory` stores a directory: one slash is
/// appended unless the name already ends in a separator.
pub open spec fn zip_wire_dirname(p: Seq<u8>) -> Seq<u8> {
    if spec_zip_is_dir(p) {
        p
    } else {
        p + seq![47u8]
    }
}

/// The wire form of a tree: stored name and contents of each entry.
pub open spec fn zip_raw_of(e: EntryModel) -> (Seq<u8>, Seq<u8>) {
    (
        zip_stored_name(e),
        if e.kind is Directory {
            Seq::<u8>::empty()
        } else {
            e.content
        },
    )
}

/// The wire forms of a tree's entries.
pub open spec fn zip_raw_seq(es: Seq<EntryModel>) -> Seq<(Seq<u8>, Seq<u8>)> {
    es.map_values(|e: EntryModel| zip_raw_of(e))
}

/// The entry a stored ZIP pair stands for: a trailing-slash name is a
/// directory and loses the slash.
pub open spec fn zip_entry_of_raw(t: (Seq<u8>, Seq<u8>)) -> EntryModel {
    if spec_zip_is_dir(t.0) {
        EntryModel {
            path: if t.0[t.0.len() - 1] == 47u8 {
                t.0.drop_last()
            } else {
                t.0
            },
            kind: EntryKind::Directory,
            content: t.1,
        }
    } else {
        EntryModel { path: t.0, kind: EntryKind::File, content: t.1 }
    }
}

/// Appending a path separator to a nonempty relative path neither creates
/// nor removes a traversal escape.
proof fn lemma_safe_trailing_slash(p: Seq<u8>)
    requires
        p.len() > 0,
    ensures
        path_is_safe(p + seq![47u8]) <==> path_is_safe(p),
{
    let q = p + seq![47u8];
    assert(q[0] == p[0]);
    if has_dotdot_component(p) {
        let i = choose|i: int| dotdot_component_at(p, i);
        assert(dotdot_component_at(q, i));
    }
    if has_dotdot_component(q) {
        let i = choose|i: int| dotdot_component_at(q, i);
        assert(i + 2 <= p.len());
        assert(dotdot_component_at(p, i));
    }
}

/// `post` relates to `pre` as storing one entry relates a writer's
/// entries, when the call returned `r`: a successful call stores the name
/// verbatim, and a fresh name of storable length cannot fail.
pub open spec fn zip_add_ok(
    pre: Seq<(Seq<u8>, Seq<u8>)>,
    post: Seq<(Seq<u8>, Seq<u8>)>,
    name: Seq<u8>,
    content: Seq<u8>,
    r: Result<(), std::io::Error>,
) -> bool {
    &&& (r is Ok ==> post == pre.push((name, content)))
    &&& ((forall|j: int| 0 <= j < pre.len() ==> (#[trigger] pre[j]).0 != name) && name.len()
        < 0x10000 && content.len() <= 0xffffffff ==> r is Ok)
}

/// `r` is an acceptable outcome of opening `data` for reading: on bytes
/// the paired writer produced for `es`, the archive opens and every entry
/// reads back.
pub open spec fn zip_open_ok(data: Seq<u8>, r: Result<ZipTreeReader, std::io::Error>) -> bool {
    forall|es: Seq<(Seq<u8>, Seq<u8>)>|
        data == zip_bytes_of(es) ==> (r matches Ok(a) && zip_reader_model(a) == Some(es))
}

/// `r` is an acceptable outcome of asking an opened archive its length.
pub open spec fn zip_len_ok(m: Option<Seq<(Seq<u8>, Seq<u8>)>>, r: usize) -> bool {
    m matches Some(es) ==> r == es.len()
}

/// `r` and the reader's unchanged model are an acceptable outcome of
/// reading entry `i`: on a fully readable archive, the stored name comes
/// back decoded, the directory flag follows the stored name's trailing
/// separator, and the contents come back exactly.
pub open spec fn zip_index_ok(
    m: Option<Seq<(Seq<u8>, Seq<u8>)>>,
    m2: Option<Seq<(Seq<u8>, Seq<u8>)>>,
    i: int,
    r: Result<ZipRawEntry, std::io::Error>,
) -> bool {
    &&& m2 == m
    &&& (m matches Some(es) ==> (0 <= i < es.len() ==> (r matches Ok(e) && e@ == (
        es[i].0,
        spec_zip_is_dir(es[i].0),
        es[i].1,
    ))))
}

/// Relies on zip::ZipWriter::new: a fresh writer holds no entries.
#[verifier::external_body]
fn zip_writer_new() -> (w: ZipTreeWriter)
    ensures
        zip_writer_model(w) == Seq::<(Seq<u8>, Seq<u8>)>::empty(),
{
    ZipTreeWriter { inner: zip::ZipWriter::new(std::io::Cursor::new(Vec::new())) }
}

/// Relies on zip::ZipWriter::start_file and the writer's Write impl, with
/// fixed options (stored method, 0o755, Unix origin): the name is stored
/// verbatim with the written contents; only a duplicate name or an
/// over-large name or contents can fail over a cursor sink.
#[verifier::external_body]
fn zip_add_file(w: &mut ZipTreeWriter, name: &str, data: &[u8]) -> (r: Result<
    (),
    std::io::Error,
>)
    ensures
        zip_add_ok(
            zip_writer_model(*old(w)),
            zip_writer_model(*final(w)),
            name.spec_bytes(),
            data@,
            r,
        ),
{
    let opts = zip::write::SimpleFileOptions::default().compression_method(
        zip::CompressionMethod::Stored,
    ).unix_permissions(0o755).system(zip::System::Unix);
    w.inner.start_file(name, opts).map_err(std::io::Error::from)?;
    w.inner.write_all(data)?;
    Ok(())
}

/// Relies on zip::ZipWriter::add_directory with the same fixed options:
/// the name is stored with one slash appended (unless it already ends in a
/// separator) and no contents.
#[verifier::external_body]
fn zip_add_dir(w: &mut ZipTreeWriter, name: &str) -> (r: Result<(), std::io::Error>)
    ensures
        zip_add_ok(
            zip_writer_model(*old(w)),
            zip_writer_model(*final(w)),
            zip_wire_dirname(name.spec_bytes()),
            Seq::<u8>::empty(),
            r,
        ),
{
    let opts = zip::write::SimpleFileOptions::default().compression_method(
        zip::CompressionMethod::Stored,
    ).unix_permissions(0o755).system(zip::System::Unix);
    w.inner.add_directory(name, opts).map_err(std::io::Error::from)
}

/// Relies on zip::ZipWriter::finish: writing the central directory into a
/// cursor over a Vec cannot fail, and the result is the archive bytes for
/// the stored entries.
#[verifier::external_body]
fn zip_finish(w: ZipTreeWriter) -> (r: Vec<u8>)
    ensures
        r@ == zip_bytes_of(zip_writer_model(w)),
{
    w.inner.finish().expect("zip finish failed").into_inner()
}

/// Relies on zip::ZipArchive::new: parses the central directory of the
/// given bytes.
#[verifier::external_body]
fn zip_open(data: &[u8]) -> (r: Result<ZipTreeReader, std::io::Error>)
    ensures
        zip_open_ok(data@, r),
{
    match zip::ZipArchive::new(std::io::Cursor::new(data.to_vec())) {
        Ok(a) => Ok(ZipTreeReader { inner: a }),
        Err(e) => Err(std::io::Error::from(e)),
    }
}

/// Relies on zip::ZipArchive::len: the number of entries in the central
/// directory.
#[verifier::external_body]
fn zip_len(a: &ZipTreeReader) -> (r: usize)
    ensures
        zip_len_ok(zip_reader_model(*a), r),
{
    a.inner.len()
}

/// Relies on zip::ZipArchive::by_index and zip::read::ZipFile (name,
/// is_dir, read_to_end): reads one entry's decoded stored name, directory
/// flag and contents, leaving the archive's entry set unchanged.
#[verifier::external_body]
fn zip_by_index(a: &mut ZipTreeReader, idx: usize) -> (r: Result<ZipRawEntry, std::io::Error>)
    ensures
        zip_index_ok(zip_reader_model(*old(a)), zip_reader_model(*final(a)), idx as int, r),
{
    let mut f = a.inner.by_index(idx).map_err(std::io::Error::from)?;
    let name = f.name().to_string();
    let is_dir = f.is_dir();
    let mut data = Vec::new();
    f.read_to_end(&mut data)?;
    Ok(ZipRawEntry { name, is_dir, data })
}

/// Pack an in-memory tree as a ZIP archive with stored (uncompressed)
/// entries, in order. A tree whose entries are singly storable is refused
/// only for a duplicate stored name; an entry with an unstorable name, an
/// over-large content, or contents on a directory is refused outright.
pub fn compress(entries: &Vec<ArchiveEntry>) -> (r: Result<Vec<u8>, PackError>)
    ensures
        r matches Ok(v) ==> zip_entries_each_wf(seq_model(entries@)) && v@ == zip_bytes_of(
            zip_raw_seq(seq_model(entries@)),
        ),
        r matches Err(e) ==> e == PackError::IoFailure && !entries_wf_zip(seq_model(entries@)),
{
    let ghost models = seq_model(entries@);
    let mut w = zip_writer_new();
    let n = entries.len();
    let mut i: usize = 0;
    assert(zip_writer_model(w) =~= zip_raw_seq(models).take(0));
    while i < n
        invariant
            n == entries@.len(),
            i <= n,
            models == seq_model(entries@),
            zip_writer_model(w) == zip_raw_seq(models).take(i as int),
            forall|j: int| 0 <= j < i ==> entry_wf_zip(#[trigger] models[j]),
        decreases n - i,
    {
        let e = &entries[i];
        let ps = e.path.as_str();
        let nb = ps.as_bytes();
        proof {
            encode_utf8_valid_utf8(e.path@);
        }
        if nb.len() == 0 {
            assert(!entry_wf_zip(models[i as int]));
            return Err(PackError::IoFailure);
        }
        let last = nb[nb.len() - 1];
        if last == 47u8 || last == 92u8 {
            assert(!entry_wf_zip(models[i as int]));
            return Err(PackError::IoFailure);
        }
        let res = match e.kind {
            EntryKind::File => {
                if nb.len() >= 0x10000 {
                    assert(!entry_wf_zip(models[i as int]));
                    return Err(PackError::IoFailure);
                }
                if e.content.len() > 0xffffffffusize {
                    assert(!entry_wf_zip(models[i as int]));
                    return Err(PackError::IoFailure);
                }
                zip_add_file(&mut w, ps, e.content.as_slice())
            },
            EntryKind::Directory => {
                if nb.len() >= 0xffff {
                    assert(!entry_wf_zip(models[i as int]));
                    return Err(PackError::IoFailure);
                }
                if e.content.len() > 0 {
                    assert(!entry_wf_zip(models[i as int]));
                    return Err(PackError::IoFailure);
                }
                assert(e.content@ =~= Seq::<u8>::empty());
                assert(zip_wire_dirname(ps.spec_bytes()) == zip_stored_name(models[i as int]));
                zip_add_dir(&mut w, ps)
            },
        };
        match res {
            Ok(_) => {},
            Err(_) => {
                proof {
                    let pre = zip_raw_seq(models).take(i as int);
                    let name = zip_stored_name(models[i as int]);
                    assert(exists|j: int| 0 <= j < pre.len() && (#[trigger] pre[j]).0 == name);
                    let j = choose|j: int| 0 <= j < pre.len() && (#[trigger] pre[j]).0 == name;
                    assert(pre[j] == zip_raw_of(models[j]));
                    assert(zip_stored_name(models[j]) == zip_stored_name(models[i as int]));
                    assert(!zip_names_distinct(models));
                }
                return Err(PackError::IoFailure);
            },
        }
        proof {
            assert(entry_wf_zip(models[i as int]));
            assert(zip_raw_seq(models)[i as int] == zip_raw_of(models[i as int]));
            assert(zip_raw_seq(models).take(i as int).push(zip_raw_of(models[i as int]))
                =~= zip_raw_seq(models).take(i + 1));
        }
        i = i + 1;
    }
    assert(zip_raw_seq(models).take(n as int) =~= zip_raw_seq(models));
    assert(zip_entries_each_wf(models));
    let out = zip_finish(w);
    Ok(out)
}

/// `out` is an acceptable unpack result for the archive bytes `data`: on
/// bytes the paired packer produced for a well-formed tree whose paths all
/// pass the path-safety validator, exactly that tree comes back.
pub open spec fn zip_unpack_roundtrip(data: Seq<u8>, out: Option<Seq<EntryModel>>) -> bool {
    forall|es: Seq<EntryModel>|
        entries_wf_zip(es) && entries_safe(es) && data == zip_bytes_of(zip_raw_seq(es)) ==> out
            == Some(es)
}

/// A stored wire pair of a well-formed entry stands for that entry again.
proof fn lemma_zip_raw_roundtrip(es: Seq<EntryModel>)
    requires
        forall|i: int| 0 <= i < es.len() ==> entry_wf_zip(#[trigger] es[i]),
    ensures
        zip_raw_seq(es).map_values(|t: (Seq<u8>, Seq<u8>)| zip_entry_of_raw(t)) == es,
{
    let mapped = zip_raw_seq(es).map_values(|t: (Seq<u8>, Seq<u8>)| zip_entry_of_raw(t));
    assert forall|i: int| 0 <= i < es.len() implies mapped[i] == es[i] by {
        assert(entry_wf_zip(es[i]));
        let e = es[i];
        if e.kind is Directory {
            assert((e.path + seq![47u8]).drop_last() =~= e.path);
        }
    }
    assert(mapped =~= es);
}

/// `r` rejects traversal on `data`: on bytes the paired packer produced
/// for a well-formed tree holding some path the validator refuses, the
/// whole unpack fails with a traversal error.
pub open spec fn zip_unpack_rejects(data: Seq<u8>, r: Result<Vec<ArchiveEntry>, PackError>) -> bool {
    forall|es: Seq<EntryModel>|
        entries_wf_zip(es) && !entries_safe(es) && data == zip_bytes_of(zip_raw_seq(es)) ==> r
            == Err::<Vec<ArchiveEntry>, PackError>(PackError::PathTraversalRejected)
}

/// Unpack a ZIP archive into an in-memory tree. Every entry the archive
/// yields is checked against the path-safety validator before it is
/// accepted: an unsafe stored name aborts the unpack with a traversal
/// error, so every tree this function returns is safe. An archive the
/// paired packer produced for a well-formed tree unpacks to exactly that
/// tree when its paths are safe, and fails as a traversal otherwise.
pub fn decompress(data: &[u8]) -> (r: Result<Vec<ArchiveEntry>, PackError>)
    ensures
        r matches Ok(v) ==> entries_safe(seq_model(v@)),
        zip_unpack_roundtrip(data@, ok_models(r)),
        zip_unpack_rejects(data@, r),
{
    let ar_res = zip_open(data);
    let mut ar = match ar_res {
        Ok(a) => a,
        Err(_) => {
            proof {
                assert forall|es: Seq<EntryModel>|
                    entries_wf_zip(es) && data@ == zip_bytes_of(
                        zip_raw_seq(es),
                    ) implies false by {
                    assert(zip_open_ok(data@, ar_res));
                }
            }
            return Err(PackError::MalformedArchive);
        },
    };
    let ghost am = zip_reader_model(ar);
    proof {
        assert forall|esr: Seq<(Seq<u8>, Seq<u8>)>| data@ == zip_bytes_of(esr) implies am == Some(
            esr,
        ) by {
            assert(zip_open_ok(data@, ar_res));
        }
    }
    let n = zip_len(&ar);
    let mut out: Vec<ArchiveEntry> = Vec::new();
    let mut i: usize = 0;
    while i < n
        invariant
            i <= n,
            forall|esr: Seq<(Seq<u8>, Seq<u8>)>| data@ == zip_bytes_of(esr) ==> am == Some(esr),
            zip_reader_model(ar) == am,
            am matches Some(rs) ==> n == rs.len() && seq_model(out@) == rs.take(
                i as int,
            ).map_values(|t: (Seq<u8>, Seq<u8>)| zip_entry_of_raw(t)),
            entries_safe(seq_model(out@)),
        decreases n - i,
    {
        let step = zip_by_index(&mut ar, i);
        let raw = match step {
            Ok(raw) => raw,
            Err(_) => {
                proof {
                    assert forall|es: Seq<EntryModel>|
                        entries_wf_zip(es) && data@ == zip_bytes_of(
                            zip_raw_seq(es),
                        ) implies false by {
                        let rs = zip_raw_seq(es);
                        assert(am == Some(rs));
                    }
                }
                return Err(PackError::MalformedArchive);
            },
        };
        let ghost raw_model = raw@;
        proof {
            match am {
                Some(rs) => {
                    assert(raw_model == (rs[i as int].0, spec_zip_is_dir(rs[i as int].0), rs[i as int].1));
                },
                None => {},
            }
        }
        let nb = raw.name.as_str().as_bytes();
        if !bytes_path_is_safe(nb) {
            proof {
                assert forall|es: Seq<EntryModel>|
                    entries_wf_zip(es) && entries_safe(es) && data@ == zip_bytes_of(
                        zip_raw_seq(es),
                    ) implies false by {
                    let rs = zip_raw_seq(es);
                    assert(rs[i as int] == zip_raw_of(es[i as int]));
                    assert(entry_safe(es[i as int]));
                    assert(entry_wf_zip(es[i as int]));
                    if es[i as int].kind is Directory {
                        lemma_safe_trailing_slash(es[i as int].path);
                    }
                }
            }
            return Err(PackError::PathTraversalRejected);
        }
        let is_dir = raw.is_dir;
        let entry: ArchiveEntry;
        if is_dir && nb.len() > 0 && nb[nb.len() - 1] == 47u8 {
            let prefix = slice_subrange(nb, 0, nb.len() - 1);
            let pv = slice_to_vec(prefix);
            match bytes_to_string(pv) {
                None => {
                    proof {
                        assert forall|es: Seq<EntryModel>|
                            entries_wf_zip(es) && data@ == zip_bytes_of(
                                zip_raw_seq(es),
                            ) implies false by {
                            let rs = zip_raw_seq(es);
                            assert(rs[i as int] == zip_raw_of(es[i as int]));
                            assert(entry_wf_zip(es[i as int]));
                            if es[i as int].kind is Directory {
                                assert((es[i as int].path + seq![47u8]).drop_last() =~= es[
                                    i as int
                                ].path);
                            }
                        }
                    }
                    return Err(PackError::MalformedArchive);
                },
                Some(s) => {
                    entry = ArchiveEntry { path: s, kind: EntryKind::Directory, content: raw.data };
                },
            }
        } else {
            entry = ArchiveEntry {
                path: raw.name,
                kind: if is_dir {
                    EntryKind::Directory
                } else {
                    EntryKind::File
                },
                content: raw.data,
            };
        }
        proof {
            if raw_model.0.len() > 0 && raw_model.0[raw_model.0.len() - 1] == 47u8 {
                assert(raw_model.0.len() >= 2);
                assert(raw_model.0.drop_last() =~= raw_model.0.subrange(
                    0,
                    raw_model.0.len() - 1,
                ));
                lemma_safe_trailing_slash(raw_model.0.drop_last());
                assert(raw_model.0.drop_last() + seq![47u8] =~= raw_model.0);
            }
            assert(entry_safe(entry@));
        }
        let ghost prev_out = out@;
        out.push(entry);
        proof {
            assert(seq_model(out@) =~= seq_model(prev_out).push(entry@));
            assert(entries_safe(seq_model(out@)));
            match am {
                Some(rs) => {
                    assert(raw_model.1 == spec_zip_is_dir(rs[i as int].0));
                    assert(rs.take(i as int + 1) =~= rs.take(i as int).push(rs[i as int]));
                    assert(zip_entry_of_raw(rs[i as int]) == entry@);
                    assert(seq_model(out@) =~= rs.take(i as int + 1).map_values(
                        |t: (Seq<u8>, Seq<u8>)| zip_entry_of_raw(t),
                    ));
                },
                None => {},
            }
        }
        i = i + 1;
    }
    proof {
        assert forall|es: Seq<EntryModel>|
            entries_wf_zip(es) && data@ == zip_bytes_of(
                zip_raw_seq(es),
            ) implies seq_model(out@) == es && entries_safe(es) by {
            let rs = zip_raw_seq(es);
            assert(am == Some(rs));
            assert(i == rs.len());
            assert(rs.take(i as int) =~= rs);
            lemma_zip_raw_roundtrip(es);
        }
    }
    Ok(out)
}

} // verus!
