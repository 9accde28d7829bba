use everest_sync::download::{
    choose_filename, determine_filename, extract_filename_from_etag, extract_filename_from_url,
    last_path_segment,
};

#[test]
fn url_gives_its_last_path_segment() {
    assert_eq!(
        extract_filename_from_url("https://gamebanana.com/mmdl/1298450"),
        Some("1298450".to_string())
    );
    assert_eq!(
        extract_filename_from_url("https://x/frog.zip?token=1#top"),
        Some("frog.zip".to_string())
    );
    assert_eq!(
        extract_filename_from_url("https://example.com/countries/việt nam"),
        Some("vi%E1%BB%87t%20nam".to_string())
    );
}

#[test]
fn url_without_a_last_segment_gives_no_name() {
    assert_eq!(extract_filename_from_url("https://example.com"), None);
    assert_eq!(extract_filename_from_url("https://example.com/"), None);
    assert_eq!(extract_filename_from_url("https://example.com/files/"), None);
    assert_eq!(extract_filename_from_url("data:text/plain,HelloWorld"), None);
    assert_eq!(extract_filename_from_url("not a url"), None);
    assert_eq!(extract_filename_from_url(""), None);
}

#[test]
fn last_path_segment_needs_a_leading_slash() {
    assert_eq!(last_path_segment("/a/b/c.zip"), Some("c.zip".to_string()));
    assert_eq!(last_path_segment("/c.zip"), Some("c.zip".to_string()));
    assert_eq!(last_path_segment("/a/b/"), None);
    assert_eq!(last_path_segment("/"), None);
    assert_eq!(last_path_segment("a/b"), None);
    assert_eq!(last_path_segment(""), None);
}

#[test]
fn etag_gives_its_value_without_quotes() {
    assert_eq!(extract_filename_from_etag(Some("\"abc123\"")), Some("abc123.zip".to_string()));
    assert_eq!(extract_filename_from_etag(Some("abc123")), Some("abc123.zip".to_string()));
    assert_eq!(extract_filename_from_etag(Some("\"\"a\"b\"\"")), Some("a\"b.zip".to_string()));
    assert_eq!(extract_filename_from_etag(Some("\"\"")), Some(".zip".to_string()));
    assert_eq!(extract_filename_from_etag(Some("")), Some(".zip".to_string()));
    assert_eq!(extract_filename_from_etag(None), None);
}

#[test]
fn filename_prefers_the_url_then_the_etag() {
    let from_url = Some("frog.zip".to_string());
    let from_etag = Some("abc.zip".to_string());
    assert_eq!(choose_filename(from_url.clone(), from_etag.clone(), "id"), "frog.zip");
    assert_eq!(choose_filename(None, from_etag, "id"), "abc.zip");
    assert_eq!(choose_filename(from_url, None, "id"), "frog.zip");
    assert_eq!(choose_filename(None, None, "id"), "unknown-mod_id.zip");
}

#[test]
fn determined_filename_follows_the_policy() {
    assert_eq!(determine_filename("https://x/frog.zip", Some("\"abc\"")), "frog.zip");
    assert_eq!(determine_filename("https://x/", Some("\"abc\"")), "abc.zip");
    let placeholder = determine_filename("https://x/", None);
    assert!(placeholder.starts_with("unknown-mod_"));
    assert!(placeholder.ends_with(".zip"));
    assert!(placeholder.len() > "unknown-mod_.zip".len());
}

#[test]
fn placeholder_names_are_unique() {
    let first = determine_filename("https://x/", None);
    let second = determine_filename("https://x/", None);
    assert_ne!(first, second);
}
