use velo::navigation::{
    bookmark_request, is_newtab_uri, load_control, normalize_url, origin_from_parts,
    should_record_visit, tab_start, tab_title, url_bar_text, LoadControl, TabStart,
};

#[test]
fn normalize_keeps_known_schemes() {
    assert_eq!(normalize_url("https://example.com/a b"), "https://example.com/a b");
    assert_eq!(normalize_url("http://example.com"), "http://example.com");
    assert_eq!(normalize_url("file:///tmp/x.html"), "file:///tmp/x.html");
    assert_eq!(normalize_url("about:blank"), "about:blank");
}

#[test]
fn normalize_trims_white_space() {
    assert_eq!(normalize_url("  https://rust-lang.org \n"), "https://rust-lang.org");
    assert_eq!(normalize_url("\u{3000}example.com\t"), "https://example.com");
}

#[test]
fn normalize_adds_https_to_host_names() {
    assert_eq!(normalize_url("example.com"), "https://example.com");
    assert_eq!(normalize_url("docs.rs/serde"), "https://docs.rs/serde");
}

#[test]
fn normalize_searches_everything_else() {
    assert_eq!(normalize_url("rust verus"), "https://www.google.com/search?q=rust+verus");
    assert_eq!(normalize_url("a.b c"), "https://www.google.com/search?q=a.b+c");
    assert_eq!(normalize_url("localhost"), "https://www.google.com/search?q=localhost");
    assert_eq!(normalize_url(""), "https://www.google.com/search?q=");
    assert_eq!(normalize_url("   "), "https://www.google.com/search?q=");
}

#[test]
fn normalize_is_idempotent_on_examples() {
    for input in ["example.com", " rust  verus ", "about:blank", "", "x y.z", "HTTPS://X"] {
        let once = normalize_url(input);
        assert_eq!(normalize_url(&once), once);
    }
}

#[test]
fn scheme_prefix_is_case_sensitive() {
    assert_eq!(normalize_url("HTTPS://X"), "https://www.google.com/search?q=HTTPS://X");
}

#[test]
fn newtab_uris() {
    assert!(is_newtab_uri(""));
    assert!(is_newtab_uri("about:blank"));
    assert!(!is_newtab_uri("about:newtab"));
    assert!(!is_newtab_uri("https://example.com"));
}

#[test]
fn address_bar_text_hides_blank_pages() {
    assert_eq!(url_bar_text("about:blank"), "");
    assert_eq!(url_bar_text(""), "");
    assert_eq!(url_bar_text("https://a.org/"), "https://a.org/");
}

#[test]
fn visits_are_recorded_for_real_pages_only() {
    assert!(!should_record_visit(""));
    assert!(!should_record_visit("about:blank"));
    assert!(should_record_visit("https://a.org/"));
}

#[test]
fn tab_titles() {
    assert_eq!(tab_title(None), "New Tab");
    assert_eq!(tab_title(Some("")), "New Tab");
    assert_eq!(tab_title(Some("Rust")), "Rust");
}

#[test]
fn new_tabs_open_the_start_page() {
    assert_eq!(tab_start("about:newtab"), TabStart::NewTabPage);
    assert_eq!(tab_start("https://a.org"), TabStart::Address("https://a.org".to_string()));
}

#[test]
fn reload_button_follows_loading() {
    assert_eq!(load_control(true), LoadControl::Stop);
    assert_eq!(load_control(false), LoadControl::Reload);
}

#[test]
fn bookmark_requests() {
    assert!(bookmark_request("", Some("x")).is_none());
    assert!(bookmark_request("about:blank", None).is_none());
    let b = bookmark_request("https://a.org", Some("A")).unwrap();
    assert_eq!(b.url, "https://a.org");
    assert_eq!(b.title, "A");
    assert_eq!(b.id, None);
    assert_eq!(b.created_at, None);
    let b = bookmark_request("https://a.org", None).unwrap();
    assert_eq!(b.title, "https://a.org");
    let b = bookmark_request("https://a.org", Some("")).unwrap();
    assert_eq!(b.title, "");
}

#[test]
fn origins_from_parsed_parts() {
    assert_eq!(origin_from_parts("https", Some("a.org"), -1), Some("https://a.org".to_string()));
    assert_eq!(origin_from_parts("http", Some("a.org"), 8080), Some("http://a.org:8080".to_string()));
    assert_eq!(origin_from_parts("https", Some("a.org"), 0), Some("https://a.org".to_string()));
    assert_eq!(origin_from_parts("file", None, -1), None);
}
