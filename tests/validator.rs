use multidown::validator::is_valid_url;

#[test]
fn test_url_validation() {
    assert!(is_valid_url("https://example.com"));
    assert!(is_valid_url("http://example.com"));
    assert!(!is_valid_url("invalid-url"));
}

#[test]
fn urls_with_ports_and_paths() {
    assert!(is_valid_url("ftp://files.example.org:2121/pub/a-b_c.tar.gz"));
    assert!(is_valid_url("https://example.com/file.zip?x=1&y=2"));
    assert!(!is_valid_url("https://localhost/file"));
    assert!(!is_valid_url("gopher://example.com"));
}
