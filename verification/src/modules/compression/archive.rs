use vstd::prelude::*;
use vstd::utf8::encode_utf8;
use vstd::utf8::valid_utf8;

use crate::errors::PackError;
use crate::utils::{dotdot_component_at, has_dotdot_component, path_is_safe};

verus! {

/// Whether an archive entry names a regular file or a directory.
#[derive(Copy, Clone, PartialEq, Eq, Debug, Structural)]
pub enum EntryKind {
    File,
    Directory,
}

/// One entry of an in-memory file tree, as a container codec packs or
/// unpacks it: a relative path, a kind, and (for files) the contents.
#[derive(Debug, PartialEq, Eq)]
pub struct ArchiveEntry {
    pub path: String,
    pub kind: EntryKind,
    pub content: Vec<u8>,
}

/// The mathematical shape of an entry: the UTF-8 bytes of its path, its
/// kind, and its content bytes.
pub ghost struct EntryModel {
    pub path: Seq<u8>,
    pub kind: EntryKind,
    pub content: Seq<u8>,
}

impl View for ArchiveEntry {
    type V = EntryModel;

    open spec fn view(&self) -> EntryModel {
        EntryModel {
            path: encode_utf8(self.path@),
            kind: self.kind,
            content: self.content@,
        }
    }
}

/// The models of a sequence of entries.
pub open spec fn seq_model(s: Seq<ArchiveEntry>) -> Seq<EntryModel> {
    s.map_values(|e: ArchiveEntry| e@)
}

/// The tree a fallible unpack handed back, if it succeeded.
pub open spec fn ok_models(r: Result<Vec<ArchiveEntry>, PackError>) -> Option<Seq<EntryModel>> {
    match r {
        Ok(v) => Some(seq_model(v@)),
        Err(_) => None,
    }
}

/// The entry a container wire triple (stored path bytes, directory flag,
/// contents) stands for.
pub open spec fn entry_of_raw(t: (Seq<u8>, bool, Seq<u8>)) -> EntryModel {
    EntryModel {
        path: t.0,
        kind: if t.1 {
            EntryKind::Directory
        } else {
            EntryKind::File
        },
        content: t.2,
    }
}

/// An entry may be written below a destination root exactly when its path
/// passes the path-safety validator.
pub open spec fn entry_safe(e: EntryModel) -> bool {
    path_is_safe(e.path)
}

/// Every entry of the tree passes the path-safety validator.
pub open spec fn entries_safe(es: Seq<EntryModel>) -> bool {
    forall|i: int| 0 <= i < es.len() ==> entry_safe(#[trigger] es[i])
}

/// True when the byte at `i` is a whole `.` path component of `p`.
pub open spec fn dot_component_at(p: Seq<u8>, i: int) -> bool {
    &&& 0 <= i < p.len()
    &&& p[i] == 46u8
    &&& (i == 0 || p[i - 1] == 47u8)
    &&& (i + 1 == p.len() || p[i + 1] == 47u8)
}

/// A path the TAR codec stores byte-for-byte: nonempty, free of nul bytes,
/// relative, with no empty, `.` or `..` component and no trailing slash.
pub open spec fn tar_path_ok(p: Seq<u8>) -> bool {
    &&& 1 <= p.len()
    &&& (forall|i: int| 0 <= i < p.len() ==> p[i] != 0u8)
    &&& p[0] != 47u8
    &&& p[p.len() - 1] != 47u8
    &&& (forall|i: int| 0 <= i < p.len() - 1 ==> !(p[i] == 47u8 && #[trigger] p[i + 1] == 47u8))
    &&& !(exists|i: int| dot_component_at(p, i))
    &&& !has_dotdot_component(p)
}

/// A path the TAR codec stores byte-for-byte is in particular safe.
pub proof fn lemma_tar_path_ok_implies_safe(p: Seq<u8>)
    requires
        tar_path_ok(p),
    ensures
        path_is_safe(p),
{
}

/// Exec form of `tar_path_ok`.
pub fn check_tar_path(p: &[u8]) -> (r: bool)
    ensures
        r == tar_path_ok(p@),
{
    let n = p.len();
    if n == 0 {
        return false;
    }
    if p[0] == 47u8 {
        return false;
    }
    if p[n - 1] == 47u8 {
        return false;
    }
    let mut i: usize = 0;
    while i < n
        invariant
            n == p@.len(),
            1 <= n,
            i <= n,
            p@[0] != 47u8,
            p@[n - 1] != 47u8,
            forall|j: int| 0 <= j < i ==> p@[j] != 0u8,
            forall|j: int| 0 <= j < i && j < p@.len() - 1 ==> !(p@[j] == 47u8
                && #[trigger] p@[j + 1] == 47u8),
            forall|j: int| j < i ==> !dot_component_at(p@, j),
            forall|j: int| j < i ==> !dotdot_component_at(p@, j),
        decreases n - i,
    {
        if p[i] == 0u8 {
            return false;
        }
        if p[i] == 47u8 && i + 1 < n && p[i + 1] == 47u8 {
            return false;
        }
        if p[i] == 46u8 && (i == 0 || p[i - 1] == 47u8) {
            if i + 1 == n || p[i + 1] == 47u8 {
                assert(dot_component_at(p@, i as int));
                return false;
            }
            if p[i + 1] == 46u8 && (i + 2 == n || p[i + 2] == 47u8) {
                assert(dotdot_component_at(p@, i as int));
                return false;
            }
        }
        i = i + 1;
    }
    assert(forall|j: int| !dot_component_at(p@, j));
    assert(forall|j: int| !dotdot_component_at(p@, j));
    true
}

/// An entry the TAR codec can append and give back unchanged: a storable
/// path (UTF-8, since entry paths travel as strings), and no contents on a
/// directory.
pub open spec fn entry_wf_tar(e: EntryModel) -> bool {
    &&& tar_path_ok(e.path)
    &&& valid_utf8(e.path)
    &&& (e.kind is Directory ==> e.content == Seq::<u8>::empty())
}

/// Every entry of the tree is TAR-storable.
pub open spec fn entries_wf_tar(es: Seq<EntryModel>) -> bool {
    forall|i: int| 0 <= i < es.len() ==> entry_wf_tar(#[trigger] es[i])
}

/// A file name the ZIP codec stores and gives back unchanged: nonempty,
/// shorter than the format's 16-bit name field, and without the trailing
/// separator that would read back as a directory.
pub open spec fn zip_file_name_ok(p: Seq<u8>) -> bool {
    &&& 1 <= p.len() < 0x10000
    &&& p[p.len() - 1] != 47u8
    &&& p[p.len() - 1] != 92u8
}

/// A directory name the ZIP codec stores (with one slash appended) and
/// gives back unchanged: it must not already end in a separator.
pub open spec fn zip_dir_name_ok(p: Seq<u8>) -> bool {
    &&& 1 <= p.len() < 0xffff
    &&& p[p.len() - 1] != 47u8
    &&& p[p.len() - 1] != 92u8
}

/// The name under which the ZIP container stores an entry: directories
/// carry a trailing slash.
pub open spec fn zip_stored_name(e: EntryModel) -> Seq<u8> {
    if e.kind is Directory {
        e.path + seq![47u8]
    } else {
        e.path
    }
}

/// An entry the ZIP codec can store and give back unchanged (entry names
/// travel as strings, so they are UTF-8).
pub open spec fn entry_wf_zip(e: EntryModel) -> bool {
    &&& valid_utf8(e.path)
    &&& (e.kind is File ==> zip_file_name_ok(e.path) && e.content.len() <= 0xffffffff)
    &&& (e.kind is Directory ==> zip_dir_name_ok(e.path) && e.content == Seq::<u8>::empty())
}

/// The ZIP container refuses duplicate stored names, so a storable tree
/// carries pairwise distinct ones.
pub open spec fn zip_names_distinct(es: Seq<EntryModel>) -> bool {
    forall|i: int, j: int| 0 <= i < j < es.len()
        ==> zip_stored_name(#[trigger] es[i]) != zip_stored_name(#[trigger] es[j])
}

/// Every entry of the tree is ZIP-storable on its own.
pub open spec fn zip_entries_each_wf(es: Seq<EntryModel>) -> bool {
    forall|i: int| 0 <= i < es.len() ==> entry_wf_zip(#[trigger] es[i])
}

/// Every entry of the tree is ZIP-storable, under pairwise distinct names.
pub open spec fn entries_wf_zip(es: Seq<EntryModel>) -> bool {
    &&& zip_entries_each_wf(es)
    &&& zip_names_distinct(es)
}

/// Relies on String::from_utf8: on success the string's UTF-8 bytes are
/// exactly the input bytes, and valid UTF-8 input always succeeds.
#[verifier::external_body]
pub(crate) fn bytes_to_string(v: Vec<u8>) -> (r: Option<String>)
    ensures
        r matches Some(s) ==> encode_utf8(s@) == v@,
        valid_utf8(v@) ==> r is Some,
{
    match String::from_utf8(v) {
        Ok(s) => Some(s),
        Err(_) => None,
    }
}

} // verus!
