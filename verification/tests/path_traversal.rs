use magic_pack::utils::is_safe_path;

#[test]
fn is_safe_path_blocks_traversal() {
    assert!(!is_safe_path("../evil.txt"));
    assert!(!is_safe_path("dir/../evil.txt"));
    assert!(!is_safe_path("/absolute/path"));
}

#[test]
fn is_safe_path_allows_relative() {
    assert!(is_safe_path("safe.txt"));
    assert!(is_safe_path("dir/sub/file.txt"));
}

#[test]
fn is_safe_path_examples() {
    assert!(!is_safe_path("../evil.txt"));
    assert!(!is_safe_path("a/../../evil"));
    assert!(!is_safe_path("/abs/path"));
    assert!(is_safe_path("a/b/c.txt"));
}

#[test]
fn is_safe_path_edge_cases() {
    assert!(is_safe_path(""));
    assert!(is_safe_path("."));
    assert!(is_safe_path("./a"));
    assert!(is_safe_path("..a/b"));
    assert!(is_safe_path("a/b.."));
    assert!(is_safe_path("a..b"));
    assert!(!is_safe_path(".."));
    assert!(!is_safe_path("a/.."));
    assert!(!is_safe_path("a/../b"));
    assert!(!is_safe_path("/"));
}
