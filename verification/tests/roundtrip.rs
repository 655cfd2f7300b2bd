use magic_pack::contents::enums::FileType;
use magic_pack::modules;
use magic_pack::modules::compression::archive::{ArchiveEntry, EntryKind};
use magic_pack::modules::{PackSource, Unpacked};

fn file(path: &str, content: &str) -> ArchiveEntry {
    ArchiveEntry {
        path: path.to_string(),
        kind: EntryKind::File,
        content: content.as_bytes().to_vec(),
    }
}

fn dir(path: &str) -> ArchiveEntry {
    ArchiveEntry { path: path.to_string(), kind: EntryKind::Directory, content: Vec::new() }
}

fn sample_tree() -> Vec<ArchiveEntry> {
    vec![
        dir("srcdir"),
        file("srcdir/a.txt", "hello"),
        dir("srcdir/sub"),
        file("srcdir/sub/b.txt", "world"),
    ]
}

fn tree_roundtrip(format: FileType) {
    let tree = sample_tree();
    let src = PackSource::Tree(sample_tree());
    let packed = modules::compress(format, &src).expect("pack");
    match modules::decompress(format, &packed).expect("unpack") {
        Unpacked::Tree(out) => assert_eq!(out, tree),
        Unpacked::Stream(_) => panic!("container format must unpack to a tree"),
    }
}

#[test]
fn roundtrip_gz() {
    let src = PackSource::Stream(b"hello gz".to_vec());
    let packed = modules::compress(FileType::Gz, &src).expect("pack");
    assert_ne!(packed, b"hello gz".to_vec());
    match modules::decompress(FileType::Gz, &packed).expect("unpack") {
        Unpacked::Stream(out) => assert_eq!(out, b"hello gz"),
        Unpacked::Tree(_) => panic!("stream format must unpack to a stream"),
    }
}

#[test]
fn roundtrip_bz2() {
    let src = PackSource::Stream(b"hello bz2".to_vec());
    let packed = modules::compress(FileType::Bz2, &src).expect("pack");
    assert_ne!(packed, b"hello bz2".to_vec());
    match modules::decompress(FileType::Bz2, &packed).expect("unpack") {
        Unpacked::Stream(out) => assert_eq!(out, b"hello bz2"),
        Unpacked::Tree(_) => panic!("stream format must unpack to a stream"),
    }
}

#[test]
fn roundtrip_zip_dir() {
    tree_roundtrip(FileType::Zip);
}

#[test]
fn roundtrip_tar_dir() {
    tree_roundtrip(FileType::Tar);
}

#[test]
fn roundtrip_tar_gz_dir() {
    tree_roundtrip(FileType::Targz);
}

#[test]
fn roundtrip_tar_bz2_dir() {
    tree_roundtrip(FileType::Tarbz2);
}

#[test]
fn detect_file_types() {
    assert_eq!(modules::get_file_type(b"BZh9").unwrap(), FileType::Bz2);
    assert_eq!(modules::get_file_type(&[0x1f, 0x8b, 0x08, 0x00]).unwrap(), FileType::Gz);
    assert_eq!(modules::get_file_type(&[0x50, 0x4b, 0x03, 0x04]).unwrap(), FileType::Zip);
    assert_eq!(modules::get_file_type(b"ustar").unwrap(), FileType::Tar);
}

#[test]
fn targz_roundtrip_alpha_bravo() {
    // Compress a directory holding a.txt = "alpha" and sub/b.txt = "bravo"
    // to TAR+GZIP and decompress it again: both files must come back with
    // identical contents under the source directory's own name.
    let tree = vec![
        dir("srcdir"),
        file("srcdir/a.txt", "alpha"),
        dir("srcdir/sub"),
        file("srcdir/sub/b.txt", "bravo"),
    ];
    let src = PackSource::Tree(vec![
        dir("srcdir"),
        file("srcdir/a.txt", "alpha"),
        dir("srcdir/sub"),
        file("srcdir/sub/b.txt", "bravo"),
    ]);
    let packed = modules::compress(FileType::Targz, &src).expect("pack");
    match modules::decompress(FileType::Targz, &packed).expect("unpack") {
        Unpacked::Tree(out) => {
            assert_eq!(out, tree);
            let a = out.iter().find(|e| e.path == "srcdir/a.txt").expect("find a.txt");
            assert_eq!(a.content, b"alpha");
            let b = out.iter().find(|e| e.path == "srcdir/sub/b.txt").expect("find b.txt");
            assert_eq!(b.content, b"bravo");
        },
        Unpacked::Stream(_) => panic!("container format must unpack to a tree"),
    }
}

#[test]
fn tar_roundtrip_long_path() {
    // A path longer than the 100-byte classic name field travels through
    // the GNU long-name extension and must come back unchanged.
    let long_name = format!("srcdir/{}/leaf.txt", "d".repeat(150));
    let tree = vec![dir("srcdir"), file(&long_name, "deep")];
    let src = PackSource::Tree(vec![dir("srcdir"), file(&long_name, "deep")]);
    let packed = modules::compress(FileType::Tar, &src).expect("pack");
    match modules::decompress(FileType::Tar, &packed).expect("unpack") {
        Unpacked::Tree(out) => assert_eq!(out, tree),
        Unpacked::Stream(_) => panic!("container format must unpack to a tree"),
    }
}
