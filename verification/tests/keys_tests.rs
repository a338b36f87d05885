use mediacore::api::{parse_worker_concurrency, PaginatedResponse};
use mediacore::keys::{
    get_extension, object_url, original_image_key, plain_file_key, public_base_url, resolve_key,
    sanitize_bucket_name, str_contains, str_eq, variant_key,
};

#[test]
fn sanitize_lowers_and_replaces() {
    assert_eq!(sanitize_bucket_name("My Project!"), "my-project-");
    assert_eq!(sanitize_bucket_name("abc123"), "abc123");
    assert_eq!(sanitize_bucket_name("A_B C"), "a-b-c");
    assert_eq!(sanitize_bucket_name(""), "");
}

#[test]
fn sanitize_keeps_unicode_alphanumerics() {
    assert_eq!(sanitize_bucket_name("\u{c9}clair Caf\u{e9}"), "\u{e9}clair-caf\u{e9}");
    assert_eq!(sanitize_bucket_name("\u{5199}\u{771f} 1"), "\u{5199}\u{771f}-1");
}

#[test]
fn sanitize_is_idempotent() {
    for s in ["My Project!", "weird__NAME  42", "---", "Ünicode"] {
        let once = sanitize_bucket_name(s);
        let twice = sanitize_bucket_name(&once);
        assert_eq!(once, twice);
    }
}

#[test]
fn extension_of_filenames() {
    assert_eq!(get_extension("photo.jpg"), "jpg");
    assert_eq!(get_extension("archive.tar.gz"), "gz");
    assert_eq!(get_extension("noext"), "bin");
    assert_eq!(get_extension(".hidden"), "bin");
    assert_eq!(get_extension("trailing."), "");
    assert_eq!(get_extension("a.b/c"), "bin");
    assert_eq!(get_extension("dir/photo.png"), "png");
    assert_eq!(get_extension("dir.d/.hidden"), "bin");
}

#[test]
fn key_grammar() {
    assert_eq!(
        original_image_key("My Shop", "p1", "f1", "png"),
        "my-shop-p1/images/original/f1.png"
    );
    assert_eq!(
        variant_key("My Shop", "p1", "thumb", "f1", "webp"),
        "my-shop-p1/images/thumb/f1.webp"
    );
    assert_eq!(plain_file_key("My Shop", "p1", "f1", "pdf"), "my-shop-p1/files/f1.pdf");
}

#[test]
fn resolver_handles_both_url_shapes() {
    let virtual_host = "https://bucket.s3.us-east-1.amazonaws.com/a/b/c.jpg";
    let path_style = "https://cdn.example/bucket/a/b/c.jpg";
    assert_eq!(resolve_key(virtual_host, "bucket"), Some("a/b/c.jpg".to_string()));
    assert_eq!(resolve_key(path_style, "bucket"), Some("a/b/c.jpg".to_string()));
}

#[test]
fn resolver_rejects_non_urls_without_bucket_segment() {
    assert_eq!(resolve_key("a/b/c.jpg", "bucket"), None);
    assert_eq!(resolve_key("", "bucket"), None);
}

#[test]
fn resolver_takes_first_bucket_segment() {
    assert_eq!(resolve_key("x/bucket/rest/bucket/tail", "bucket"), Some("rest/bucket/tail".to_string()));
}

#[test]
fn base_urls() {
    assert_eq!(
        public_base_url(&Some("http://localhost:9000".to_string()), "media", "us-east-1"),
        "http://localhost:9000/media"
    );
    assert_eq!(
        public_base_url(&None, "media", "eu-west-2"),
        "https://media.s3.eu-west-2.amazonaws.com"
    );
    assert_eq!(object_url("https://base", "k/ey.png"), "https://base/k/ey.png");
}

#[test]
fn string_utilities() {
    assert!(str_eq("abc", "abc"));
    assert!(!str_eq("abc", "abd"));
    assert!(!str_eq("abc", "abcd"));
    assert!(str_contains("image/png", "image"));
    assert!(!str_contains("application/pdf", "image"));
    assert!(str_contains("x", ""));
}

#[test]
fn worker_concurrency_parsing() {
    assert_eq!(parse_worker_concurrency(&None), 1);
    assert_eq!(parse_worker_concurrency(&Some("4".to_string())), 4);
    assert_eq!(parse_worker_concurrency(&Some("0".to_string())), 0);
    assert_eq!(parse_worker_concurrency(&Some("abc".to_string())), 1);
    assert_eq!(parse_worker_concurrency(&Some("".to_string())), 1);
    assert_eq!(
        parse_worker_concurrency(&Some("99999999999999999999999999".to_string())),
        1
    );
    assert_eq!(parse_worker_concurrency(&Some("+4".to_string())), 4);
    assert_eq!(parse_worker_concurrency(&Some("+".to_string())), 1);
    assert_eq!(parse_worker_concurrency(&Some("++4".to_string())), 1);
    assert_eq!(parse_worker_concurrency(&Some("-4".to_string())), 1);
}

#[test]
fn pagination_page_counts() {
    let r: PaginatedResponse<u32> = PaginatedResponse::new(Vec::new(), 25, 1, 10);
    assert_eq!(r.total_pages, 3);
    let r: PaginatedResponse<u32> = PaginatedResponse::new(Vec::new(), 30, 2, 10);
    assert_eq!(r.total_pages, 3);
    let r: PaginatedResponse<u32> = PaginatedResponse::new(Vec::new(), 0, 1, 10);
    assert_eq!(r.total_pages, 0);
    let r: PaginatedResponse<u32> = PaginatedResponse::new(Vec::new(), 5, 1, 0);
    assert_eq!(r.total_pages, 0);
}
