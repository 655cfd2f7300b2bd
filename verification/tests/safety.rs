use magic_pack::contents::enums::FileType;
use magic_pack::errors::PackError;
use magic_pack::modules;
use magic_pack::modules::compression::archive::{ArchiveEntry, EntryKind};
use magic_pack::modules::compression::tar;
use magic_pack::modules::compression::zip;
use magic_pack::modules::PackSource;

fn file(path: &str, content: &str) -> ArchiveEntry {
    ArchiveEntry {
        path: path.to_string(),
        kind: EntryKind::File,
        content: content.as_bytes().to_vec(),
    }
}

/// One classic 512-byte TAR header plus padded contents, with the checksum
/// filled in, so a hostile stored path can be written that the library's
/// own packer refuses to produce.
fn raw_tar_entry(name: &[u8], content: &[u8]) -> Vec<u8> {
    let mut header = vec![0u8; 512];
    header[..name.len()].copy_from_slice(name);
    header[100..108].copy_from_slice(b"0000644\0");
    header[108..116].copy_from_slice(b"0000000\0");
    header[116..124].copy_from_slice(b"0000000\0");
    let size = format!("{:011o}\0", content.len());
    header[124..136].copy_from_slice(size.as_bytes());
    header[136..148].copy_from_slice(b"00000000000\0");
    header[148..156].copy_from_slice(b"        ");
    header[156] = b'0';
    let sum: u32 = header.iter().map(|b| u32::from(*b)).sum();
    let cksum = format!("{:06o}\0 ", sum);
    header[148..156].copy_from_slice(cksum.as_bytes());
    let mut out = header;
    out.extend_from_slice(content);
    let pad = (512 - content.len() % 512) % 512;
    out.extend(std::iter::repeat(0u8).take(pad));
    out
}

fn raw_tar_archive(name: &[u8], content: &[u8]) -> Vec<u8> {
    let mut out = raw_tar_entry(name, content);
    out.extend_from_slice(&[0u8; 1024]);
    out
}

#[test]
fn tar_rejects_traversal_entry() {
    let archive = raw_tar_archive(b"../evil.txt", b"x");
    assert_eq!(tar::decompress(&archive), Err(PackError::PathTraversalRejected));
}

#[test]
fn tar_rejects_absolute_entry() {
    let archive = raw_tar_archive(b"/abs/evil.txt", b"x");
    assert_eq!(tar::decompress(&archive), Err(PackError::PathTraversalRejected));
}

#[test]
fn tar_accepts_safe_crafted_entry() {
    let archive = raw_tar_archive(b"ok.txt", b"fine");
    let out = tar::decompress(&archive).expect("unpack");
    assert_eq!(out.len(), 1);
    assert_eq!(out[0].path, "ok.txt");
    assert_eq!(out[0].kind, EntryKind::File);
    assert_eq!(out[0].content, b"fine");
}

#[test]
fn zip_rejects_traversal_entry() {
    // The ZIP writer stores any name, so a hostile archive can be produced
    // with the packer itself; unpacking it must fail closed.
    let packed = zip::compress(&vec![file("../evil.txt", "boom")]).expect("pack");
    assert_eq!(zip::decompress(&packed), Err(PackError::PathTraversalRejected));
}

#[test]
fn zip_rejects_nested_traversal_entry() {
    let packed = zip::compress(&vec![file("a/../../evil", "boom")]).expect("pack");
    assert_eq!(zip::decompress(&packed), Err(PackError::PathTraversalRejected));
}

#[test]
fn zip_traversal_via_dispatcher() {
    let src = PackSource::Tree(vec![file("ok.txt", "fine"), file("../evil.txt", "boom")]);
    let packed = modules::compress(FileType::Zip, &src).expect("pack");
    assert_eq!(modules::decompress(FileType::Zip, &packed), Err(PackError::PathTraversalRejected));
}

#[test]
fn tar_pack_refuses_unstorable_paths() {
    let cases = ["../evil.txt", "/abs.txt", "a//b.txt", "a/./b.txt", "a/b/", "", "."];
    for path in cases {
        let r = tar::compress(&vec![file(path, "x")]);
        assert_eq!(r, Err(PackError::IoFailure), "path {:?} must be refused", path);
    }
}

#[test]
fn tar_pack_refuses_directory_with_contents() {
    let tree = vec![ArchiveEntry {
        path: "d".to_string(),
        kind: EntryKind::Directory,
        content: b"junk".to_vec(),
    }];
    assert_eq!(tar::compress(&tree), Err(PackError::IoFailure));
}

#[test]
fn zip_pack_refuses_duplicate_names() {
    let tree = vec![file("a.txt", "one"), file("a.txt", "two")];
    assert_eq!(zip::compress(&tree), Err(PackError::IoFailure));
}

#[test]
fn zip_pack_refuses_trailing_separator_file() {
    assert_eq!(zip::compress(&vec![file("a/", "x")]), Err(PackError::IoFailure));
    assert_eq!(zip::compress(&vec![file("", "x")]), Err(PackError::IoFailure));
}

#[test]
fn malformed_streams_are_reported() {
    assert_eq!(
        magic_pack::modules::compression::gz::decompress(b"garbage"),
        Err(PackError::MalformedArchive)
    );
    assert_eq!(
        magic_pack::modules::compression::bz2::decompress(b"garbage"),
        Err(PackError::MalformedArchive)
    );
    assert_eq!(tar::decompress(b"garbage"), Err(PackError::MalformedArchive));
    assert_eq!(zip::decompress(b"garbage"), Err(PackError::MalformedArchive));
}

#[test]
fn error_messages() {
    assert_eq!(PackError::UnsupportedFormat.message(), "unsupported format");
    assert_eq!(PackError::PathTraversalRejected.message(), "path traversal rejected");
    assert_eq!(PackError::IoFailure.message(), "io failure");
    assert_eq!(PackError::MalformedArchive.message(), "malformed archive");
}
