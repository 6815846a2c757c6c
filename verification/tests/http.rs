use wikipedia_scraper::http::{
    build_request, extract_header, http_get, line_names_header, Exchange, FetchError, Progress,
    Reply, MAX_REDIRECTS,
};

fn chars(s: &str) -> Vec<char> {
    s.chars().collect()
}

fn done(progress: Progress) -> (String, String) {
    match progress {
        Progress::Done(f) => (f.url, f.body),
        other => panic!("not done: {:?}", other),
    }
}

fn failed(progress: Progress) -> FetchError {
    match progress {
        Progress::Failed(e) => e,
        other => panic!("not failed: {:?}", other),
    }
}

fn followed(progress: Progress) -> Exchange {
    match progress {
        Progress::Follow(e) => e,
        other => panic!("not followed: {:?}", other),
    }
}

#[test]
fn request_is_written_out_in_full() {
    assert_eq!(
        build_request("fr.wikipedia.org", "/wiki/Rust"),
        "GET /wiki/Rust HTTP/1.1\r\n\
         Host: fr.wikipedia.org\r\n\
         User-Agent: Mozilla/5.0 (Windows NT 10.0; Win64; x64) AppleWebKit/537.36\r\n\
         Accept: text/html,application/xhtml+xml,application/xml;q=0.9,*/*;q=0.8\r\n\
         Accept-Language: fr,fr-FR;q=0.8,en-US;q=0.5,en;q=0.3\r\n\
         Connection: close\r\n\
         \r\n"
    );
}

#[test]
fn exchange_starts_without_redirects() {
    let ex = http_get("fr.wikipedia.org", "/wiki/Rust");
    assert_eq!(ex.host, "fr.wikipedia.org");
    assert_eq!(ex.path, "/wiki/Rust");
    assert_eq!(ex.hops, 0);
    assert_eq!(ex.url(), "https://fr.wikipedia.org/wiki/Rust");
    assert_eq!(ex.request(), build_request("fr.wikipedia.org", "/wiki/Rust"));
}

#[test]
fn header_is_found_by_its_name() {
    let response = "HTTP/1.1 302 Found\r\nServer: x\r\nLocation: https://a.example/b \r\n\r\nbody";
    assert_eq!(extract_header(response, "Location"), Some("https://a.example/b".to_string()));
    assert_eq!(extract_header(response, "Server"), Some("x".to_string()));
    assert_eq!(extract_header(response, "Missing"), None);
}

#[test]
fn header_name_matches_in_any_case() {
    let response = "HTTP/1.1 301 Moved\nlocation:  /there\nLOCATION: /later\n\n";
    assert_eq!(extract_header(response, "Location"), Some("/there".to_string()));
    assert_eq!(extract_header("CONTENT-TYPE: text/html", "Content-Type"), Some("text/html".to_string()));
}

#[test]
fn header_needs_colon_and_space() {
    assert_eq!(extract_header("Location:/x\r\n", "Location"), None);
    assert_eq!(extract_header("Location: \r\n", "Location"), Some(String::new()));
    assert_eq!(extract_header("X-Location: /x\r\n", "Location"), None);
    assert_eq!(extract_header("", "Location"), None);
}

#[test]
fn header_line_given_lower_case_forms() {
    assert!(line_names_header(&chars("Location: x"), &chars("Location: "), &chars(""), &chars("q")));
    assert!(line_names_header(&chars("LOCATION: x"), &chars("Location: "), &chars("location: x"), &chars("location: ")));
    assert!(!line_names_header(&chars("Server: x"), &chars("Location: "), &chars("server: x"), &chars("location: ")));
}

#[test]
fn success_returns_the_body_after_the_boundary() {
    let ex = http_get("h.example", "/p");
    let (url, body) = done(ex.on_response("HTTP/1.1 200 OK\r\nA: b\r\n\r\n<html>\r\n\r\nx</html>"));
    assert_eq!(url, "https://h.example/p");
    assert_eq!(body, "<html>\r\n\r\nx</html>");
}

#[test]
fn boundary_of_line_feeds_is_the_fallback() {
    let ex = http_get("h", "/");
    let (_, body) = done(ex.on_response("HTTP/1.1 200 OK\nA: b\n\nbody\r\n\r\nrest"));
    assert_eq!(body, "rest");
    let ex = http_get("h", "/");
    let (_, body) = done(ex.on_response("HTTP/1.1 200 OK\nA: b\n\nbody"));
    assert_eq!(body, "body");
}

#[test]
fn any_status_of_the_two_hundreds_is_a_success() {
    for line in ["HTTP/1.1 200 OK", "HTTP/1.1 204 No Content", "HTTP/2 206", "HTTP/1.0 299 x y"] {
        let ex = http_get("h", "/");
        let (_, body) = done(ex.on_response(&format!("{}\r\n\r\nb", line)));
        assert_eq!(body, "b");
    }
}

#[test]
fn other_status_fails_with_its_line() {
    for line in [
        "HTTP/1.1 404 Not Found",
        "HTTP/1.1 500 Oops",
        "HTTP/1.1 20 OK",
        "HTTP/1.1 2000 OK",
        "HTTP/1.1 2x0 OK",
        "HTTP/1.1  200 OK",
        "200",
        "",
    ] {
        let ex = http_get("h", "/");
        match failed(ex.on_response(&format!("{}\r\nA: b\r\n\r\nbody", line))) {
            FetchError::HttpStatus { line: l } => assert_eq!(l, line),
            other => panic!("{:?}", other),
        }
    }
}

#[test]
fn response_without_boundary_is_malformed() {
    let ex = http_get("h", "/");
    assert!(matches!(
        failed(ex.on_response("HTTP/1.1 200 OK\r\nA: b\r\n")),
        FetchError::MalformedResponse
    ));
}

#[test]
fn empty_response_fails_with_an_empty_status_line() {
    let ex = http_get("h", "/");
    match failed(ex.on_response("")) {
        FetchError::HttpStatus { line } => assert_eq!(line, ""),
        other => panic!("{:?}", other),
    }
}

#[test]
fn redirect_is_followed_to_its_location() {
    let ex = http_get("fr.wikipedia.org", "/wiki/Rust_lang");
    let next = followed(ex.on_response(
        "HTTP/1.1 302 Found\r\nLocation: https://fr.wikipedia.org/wiki/Rust_(langage)\r\n\r\n",
    ));
    assert_eq!(next.host, "fr.wikipedia.org");
    assert_eq!(next.path, "/wiki/Rust_(langage)");
    assert_eq!(next.hops, 1);
    let (url, body) = done(next.on_response("HTTP/1.1 200 OK\r\n\r\n<p>Rust</p>"));
    assert_eq!(url, "https://fr.wikipedia.org/wiki/Rust_(langage)");
    assert_eq!(body, "<p>Rust</p>");
}

#[test]
fn redirect_through_raw_bytes() {
    let ex = http_get("a.example", "/");
    let reply = Reply::Received(
        b"HTTP/1.1 301 Moved Permanently\r\nlocation: http://b.example/x\r\n\r\n".to_vec(),
    );
    let next = followed(ex.on_reply(reply));
    assert_eq!((next.host.as_str(), next.path.as_str()), ("b.example", "/x"));
    let (url, body) = done(next.on_reply(Reply::Received(b"HTTP/1.1 200 OK\r\n\r\nfin".to_vec())));
    assert_eq!(url, "https://b.example/x");
    assert_eq!(body, "fin");
}

#[test]
fn redirect_without_location_fails_with_its_status() {
    let ex = http_get("h", "/");
    match failed(ex.on_response("HTTP/1.1 302 Found\r\nServer: x\r\n\r\n")) {
        FetchError::HttpStatus { line } => assert_eq!(line, "HTTP/1.1 302 Found"),
        other => panic!("{:?}", other),
    }
}

#[test]
fn other_redirect_codes_are_not_followed() {
    let ex = http_get("h", "/");
    match failed(ex.on_response("HTTP/1.1 307 Temporary\r\nLocation: /x\r\n\r\n")) {
        FetchError::HttpStatus { line } => assert_eq!(line, "HTTP/1.1 307 Temporary"),
        other => panic!("{:?}", other),
    }
}

#[test]
fn redirects_end_after_the_bound() {
    let mut ex = http_get("h0", "/");
    let mut hops = 0;
    loop {
        let response = format!("HTTP/1.1 301 Moved\r\nLocation: https://h{}/\r\n\r\n", hops + 1);
        match ex.on_response(&response) {
            Progress::Follow(next) => {
                hops += 1;
                assert_eq!(next.hops, hops);
                assert_eq!(next.host, format!("h{}", hops));
                ex = next;
            }
            Progress::Failed(FetchError::HttpStatus { line }) => {
                assert_eq!(line, "HTTP/1.1 301 Moved");
                break;
            }
            other => panic!("{:?}", other),
        }
        assert!(hops <= MAX_REDIRECTS);
    }
    assert_eq!(hops, MAX_REDIRECTS);
    assert_eq!(MAX_REDIRECTS, 10);
}

#[test]
fn transport_failures_become_errors() {
    match failed(http_get("h.example", "/").on_reply(Reply::ConnectionFailed)) {
        FetchError::ConnectionFailed { host } => assert_eq!(host, "h.example"),
        other => panic!("{:?}", other),
    }
    assert!(matches!(
        failed(http_get("h.example", "/").on_reply(Reply::TlsFailed)),
        FetchError::TlsFailed
    ));
}

#[test]
fn bytes_that_are_no_text_are_replaced() {
    let mut bytes = b"HTTP/1.1 200 OK\r\n\r\ncaf".to_vec();
    bytes.push(0xE9);
    bytes.extend_from_slice(b" ok ");
    bytes.extend_from_slice("é".as_bytes());
    let (_, body) = done(http_get("h", "/").on_reply(Reply::Received(bytes)));
    assert_eq!(body, "caf\u{FFFD} ok é");
}

#[test]
fn errors_say_their_reason() {
    assert_eq!(
        FetchError::ConnectionFailed { host: "h.example".to_string() }.message(),
        "Connexion impossible à h.example"
    );
    assert_eq!(FetchError::TlsFailed.message(), "Échec de la session TLS");
    assert_eq!(
        FetchError::HttpStatus { line: "HTTP/1.1 404 Not Found".to_string() }.message(),
        "Erreur HTTP: HTTP/1.1 404 Not Found"
    );
    assert_eq!(
        FetchError::MalformedResponse.message(),
        "Impossible de séparer headers et body"
    );
}

#[test]
fn redirect_is_invisible_in_the_result() {
    let first = http_get("fr.wikipedia.org", "/wiki/A");
    assert_eq!(first.request(), build_request("fr.wikipedia.org", "/wiki/A"));
    let second = followed(first.on_response(
        "HTTP/1.1 302 Found\r\nLocation: https://fr.wikipedia.org/wiki/B\r\n\r\n",
    ));
    assert_eq!(second.request(), build_request("fr.wikipedia.org", "/wiki/B"));
    let (url, body) = done(second.on_response("HTTP/1.1 200 OK\r\n\r\nFINAL"));
    assert_eq!(body, "FINAL");
    assert_eq!(url, "https://fr.wikipedia.org/wiki/B");
}

#[test]
fn status_line_is_no_location_header() {
    let ex = http_get("h", "/");
    match failed(ex.on_response("Location: http://a.example/302\r\nServer: x\r\n\r\n")) {
        FetchError::HttpStatus { line } => assert_eq!(line, "Location: http://a.example/302"),
        other => panic!("{:?}", other),
    }
}
