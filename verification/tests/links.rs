use youtuibe::links::{desktop_file_uri, normalize_url, thumbnail_file_name};

#[test]
fn normalizes_bare_urls() {
    assert_eq!(normalize_url("youtu.be/abc").unwrap(), "https://youtu.be/abc");
    assert!(normalize_url("not a url").is_none());
}

#[test]
fn normalizing_keeps_http_and_rejects_other_schemes() {
    assert_eq!(normalize_url("  http://example.com/x  ").unwrap(), "http://example.com/x");
    assert!(normalize_url("   ").is_none());
    assert!(normalize_url("http://").is_none());
    assert_eq!(normalize_url("ftp://example.com").unwrap(), "https://ftp//example.com");
}

#[test]
fn desktop_uri_matches_glib_bracket_encoding() {
    let uri = desktop_file_uri("/tmp/Song [abc].opus").unwrap();
    assert_eq!(uri, "file:///tmp/Song%20%5Babc%5D.opus");
}

#[test]
fn relative_paths_have_no_file_uri() {
    assert_eq!(
        desktop_file_uri("music/song.opus").unwrap_err(),
        "cannot form file URI for music/song.opus"
    );
}

#[test]
fn thumbnail_cache_name_is_md5_of_uri() {
    assert_eq!(
        thumbnail_file_name("file:///tmp/song.opus"),
        format!("{:x}.png", md5::compute("file:///tmp/song.opus".as_bytes()))
    );
    assert_eq!(thumbnail_file_name(""), "d41d8cd98f00b204e9800998ecf8427e.png");
}
