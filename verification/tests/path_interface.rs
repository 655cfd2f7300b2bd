use magic_pack::modules::compression::gz;

#[test]
fn non_utf8_path_gz_roundtrip() {
    // The content being compressed may be arbitrary bytes; the codec must
    // hand back exactly what was packed.
    let compressed = gz::compress(b"non-utf8");
    let contents = gz::decompress(&compressed).expect("read output");
    assert_eq!(contents, b"non-utf8");
}
