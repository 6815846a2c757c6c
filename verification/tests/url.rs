use wikipedia_scraper::url::{parse_url, url_encode};

fn split(url: &str) -> (String, String) {
    parse_url(url)
}

fn pair(host: &str, path: &str) -> (String, String) {
    (host.to_string(), path.to_string())
}

#[test]
fn split_without_scheme_keeps_host_and_path() {
    assert_eq!(split("example.org/a/b"), pair("example.org", "/a/b"));
}

#[test]
fn split_without_path_defaults_to_root() {
    assert_eq!(split("https://example.org"), pair("example.org", "/"));
}

#[test]
fn split_strips_http_and_https() {
    assert_eq!(
        split("https://fr.wikipedia.org/wiki/Rust_(langage)"),
        pair("fr.wikipedia.org", "/wiki/Rust_(langage)")
    );
    assert_eq!(split("http://example.org/x?y=1"), pair("example.org", "/x?y=1"));
}

#[test]
fn split_checks_the_scheme_case_sensitively() {
    assert_eq!(split("HTTPS://example.org/a"), pair("HTTPS:", "//example.org/a"));
    assert_eq!(split("ftp://example.org/a"), pair("ftp:", "//example.org/a"));
}

#[test]
fn split_degenerates_on_malformed_input() {
    assert_eq!(split(""), pair("", "/"));
    assert_eq!(split("no slash here"), pair("no slash here", "/"));
    assert_eq!(split(" example.org "), pair(" example.org ", "/"));
    assert_eq!(split("/wiki/Foo"), pair("", "/wiki/Foo"));
    assert_eq!(split("https://"), pair("", "/"));
}

#[test]
fn split_strips_one_scheme_only() {
    assert_eq!(split("https://http://a/b"), pair("http:", "//a/b"));
}

#[test]
fn split_parts_rebuild_the_schemeless_address() {
    for url in ["example.org/a/b", "https://h/p/q?x#y", "http://é.example/ü", "a//b"] {
        let (host, path) = split(url);
        let rest = url
            .strip_prefix("https://")
            .or_else(|| url.strip_prefix("http://"))
            .unwrap_or(url);
        assert_eq!(format!("{}{}", host, path), rest);
        assert!(!host.contains('/'));
        assert!(path.starts_with('/'));
    }
}

#[test]
fn encode_keeps_unreserved_characters() {
    assert_eq!(url_encode("AZaz09-_.~"), "AZaz09-_.~");
}

#[test]
fn encode_turns_spaces_into_underscores() {
    assert_eq!(url_encode("Rust langage"), "Rust_langage");
}

#[test]
fn encode_escapes_other_ascii_in_upper_case_hex() {
    assert_eq!(url_encode("a/b?c=d&e"), "a%2Fb%3Fc%3Dd%26e");
    assert_eq!(url_encode("(x)"), "%28x%29");
    assert_eq!(url_encode("\n"), "%0A");
    assert_eq!(url_encode("\u{7f}"), "%7F");
}

#[test]
fn encode_escapes_each_byte_of_utf8() {
    assert_eq!(url_encode("é"), "%C3%A9");
    assert_eq!(url_encode("Spécial"), "Sp%C3%A9cial");
    assert_eq!(url_encode("€"), "%E2%82%AC");
    assert_eq!(url_encode("😀"), "%F0%9F%98%80");
}

#[test]
fn encode_of_empty_is_empty() {
    assert_eq!(url_encode(""), "");
}
