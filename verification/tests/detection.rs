use magic_pack::contents::enums::FileType;
use magic_pack::errors::PackError;
use magic_pack::modules;
use magic_pack::modules::find_subsequence;
use magic_pack::modules::{PackSource, Unpacked};

#[test]
fn detect_unsupported_when_nothing_matches() {
    // First bytes match no fixed signature and no `ustar` occurs anywhere.
    assert_eq!(modules::get_file_type(b"plain text, nothing magic"), Err(PackError::UnsupportedFormat));
    assert_eq!(modules::get_file_type(&[]), Err(PackError::UnsupportedFormat));
    assert_eq!(modules::get_file_type(&[0x00, 0x01, 0x02, 0x03]), Err(PackError::UnsupportedFormat));
}

#[test]
fn detect_is_content_only() {
    // Detection sees nothing but the bytes, so a GZIP-signed stream is
    // classified as GZIP no matter what a surrounding file was called.
    let src = PackSource::Stream(b"data.bin contents".to_vec());
    let packed = modules::compress(FileType::Gz, &src).expect("pack");
    assert_eq!(modules::get_file_type(&packed).unwrap(), FileType::Gz);
}

#[test]
fn detect_on_packed_artifacts() {
    let stream = PackSource::Stream(b"payload".to_vec());
    let bz = modules::compress(FileType::Bz2, &stream).expect("pack bz2");
    assert_eq!(modules::get_file_type(&bz).unwrap(), FileType::Bz2);

    let tree = PackSource::Tree(vec![magic_pack::modules::compression::archive::ArchiveEntry {
        path: "f.txt".to_string(),
        kind: magic_pack::modules::compression::archive::EntryKind::File,
        content: b"x".to_vec(),
    }]);
    let zipped = modules::compress(FileType::Zip, &tree).expect("pack zip");
    assert_eq!(modules::get_file_type(&zipped).unwrap(), FileType::Zip);
    let tarred = modules::compress(FileType::Tar, &tree).expect("pack tar");
    assert_eq!(modules::get_file_type(&tarred).unwrap(), FileType::Tar);
    let targz = modules::compress(FileType::Targz, &tree).expect("pack tar.gz");
    assert_eq!(modules::get_file_type(&targz).unwrap(), FileType::Gz);
}

#[test]
fn detect_tar_by_scan() {
    // The `ustar` magic counts wherever it stands in the file, not only at
    // a fixed offset.
    let mut data = vec![b'x'; 300];
    data.extend_from_slice(b"ustar");
    data.extend_from_slice(&[0u8; 40]);
    assert_eq!(modules::get_file_type(&data).unwrap(), FileType::Tar);
}

#[test]
fn detect_prefix_wins_over_scan() {
    // A fixed-prefix match is taken before the whole-file scan.
    let mut data = vec![0x1f, 0x8b];
    data.extend_from_slice(b"...ustar...");
    assert_eq!(modules::get_file_type(&data).unwrap(), FileType::Gz);
}

#[test]
fn find_subsequence_positions() {
    assert_eq!(find_subsequence(b"hello ustar world", b"ustar"), Some(6));
    assert_eq!(find_subsequence(b"ustar", b"ustar"), Some(0));
    assert_eq!(find_subsequence(b"usta", b"ustar"), None);
    assert_eq!(find_subsequence(b"abcabc", b"abc"), Some(0));
    assert_eq!(find_subsequence(b"xxabc", b"abc"), Some(2));
    assert_eq!(find_subsequence(b"", b"a"), None);
}

#[test]
fn registry_contents() {
    let prefixes = modules::prefix_signatures();
    assert_eq!(prefixes.len(), 3);
    assert_eq!(prefixes[0].pattern, b"BZh".to_vec());
    assert_eq!(prefixes[1].pattern, vec![0x1f, 0x8b]);
    assert_eq!(prefixes[2].pattern, vec![0x50, 0x4b, 0x03, 0x04]);
    let scans = modules::scan_signatures();
    assert_eq!(scans.len(), 1);
    assert_eq!(scans[0].pattern, b"ustar".to_vec());
}

#[test]
fn detect_then_unpack_single_layer() {
    // The caller's pattern for nested artifacts: detect, unpack, repeat.
    let inner = PackSource::Stream(b"innermost".to_vec());
    let packed = modules::compress(FileType::Gz, &inner).expect("pack");
    let format = modules::get_file_type(&packed).expect("detect");
    match modules::decompress(format, &packed).expect("unpack") {
        Unpacked::Stream(out) => {
            assert_eq!(out, b"innermost");
            assert_eq!(modules::get_file_type(&out), Err(PackError::UnsupportedFormat));
        },
        Unpacked::Tree(_) => panic!("gz must unpack to a stream"),
    }
}
