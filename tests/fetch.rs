use paket::address::{parse_address, resolve_location, settle_join, settle_parse, UrlFault};
use paket::error::FetchError;
use paket::fetch::{build_request, make_document, plan_hop, Document, RedirectChain, MAX_REDIRECTS};
use paket::response::{classify_header, classify_status, DocumentKind, ExpectedHeader, HeaderLine};

#[test]
fn relative_location_against_current_url() {
    let mut chain = RedirectChain::start("http://example.com/old").unwrap();
    chain.follow(b"/new/path").unwrap();
    assert_eq!(chain.current().href, "http://example.com/new/path");
    chain.follow(b"next").unwrap();
    assert_eq!(chain.current().href, "http://example.com/new/next");
    chain.follow(b"https://other.example/a/b").unwrap();
    chain.follow(b"../c").unwrap();
    assert_eq!(chain.current().href, "https://other.example/c");
}

#[test]
fn five_redirects_are_followed_the_sixth_is_not() {
    let mut chain = RedirectChain::start("http://example.com/").unwrap();
    for i in 0..MAX_REDIRECTS {
        let target = format!("http://example.com/{i}");
        assert_eq!(chain.follow(target.as_bytes()), Ok(()));
    }
    assert_eq!(chain.current().href, "http://example.com/4");
    assert_eq!(chain.follow(b"http://example.com/5"), Err(FetchError::TooManyRedirects));
    assert_eq!(chain.current().href, "http://example.com/4");
}

#[test]
fn bad_redirect_targets() {
    let mut chain = RedirectChain::start("http://example.com/").unwrap();
    assert_eq!(chain.follow(b"http://[::1"), Err(FetchError::InvalidRedirectTarget));
    assert_eq!(chain.follow(b"/\xff"), Err(FetchError::NonUtf8Content));
}

#[test]
fn addresses() {
    assert_eq!(parse_address("not a url"), Err(FetchError::InvalidUrl));
    let u = parse_address("HTTP://Example.COM:8080/a?b=c").unwrap();
    assert_eq!(u.href, "http://example.com:8080/a?b=c");
    assert_eq!(u.scheme, "http");
    assert_eq!(u.host.as_deref(), Some("example.com"));
    assert_eq!(u.port, Some(8080));
    assert_eq!(u.path, "/a");
    assert_eq!(u.query.as_deref(), Some("b=c"));
    assert!(RedirectChain::start("::").is_err());
}

#[test]
fn settling_parsed_targets() {
    let base = parse_address("http://example.com/dir/page").unwrap();
    let other = parse_address("https://other.example/").unwrap();
    assert_eq!(settle_parse(&base, "x", Ok(other.clone())), Ok(other.clone()));
    assert_eq!(settle_parse(&base, "x", Err(UrlFault::Invalid)), Err(FetchError::InvalidRedirectTarget));
    assert_eq!(settle_parse(&base, "x", Err(UrlFault::RelativeWithoutBase)).unwrap().href, "http://example.com/dir/x");
    assert_eq!(settle_join(Err(UrlFault::Invalid)), Err(FetchError::InvalidRedirectTarget));
    assert_eq!(settle_join(Ok(other.clone())), Ok(other));
    assert_eq!(resolve_location(&base, b"/top").unwrap().href, "http://example.com/top");
}

#[test]
fn hops() {
    let http = plan_hop(&parse_address("http://example.com/a/b?q=1").unwrap()).unwrap();
    assert_eq!(http.host, "example.com");
    assert_eq!(http.port, 80);
    assert!(!http.tls);
    assert_eq!(
        http.request,
        "GET /a/b?q=1 HTTP/1.1\r\nHost: example.com\r\nConnection: close\r\nAccept-Encoding: \r\nAccept: text/html,application/xhtml+xml,application/pdf,*/*;q=0\r\nUser-Agent: paket\r\n\r\n"
    );
    let https = plan_hop(&parse_address("https://example.com").unwrap()).unwrap();
    assert_eq!(https.port, 443);
    assert!(https.tls);
    assert!(https.request.starts_with("GET / HTTP/1.1\r\n"));
    assert!(matches!(plan_hop(&parse_address("ftp://example.com/").unwrap()), Err(FetchError::UnsupportedScheme)));
    let chain = RedirectChain::start("mailto:someone@example.com").unwrap();
    assert!(matches!(chain.plan(), Err(FetchError::UnsupportedScheme)));
}

#[test]
fn request_text() {
    let r = build_request("/p", &None, "h");
    assert_eq!(r, "GET /p HTTP/1.1\r\nHost: h\r\nConnection: close\r\nAccept-Encoding: \r\nAccept: text/html,application/xhtml+xml,application/pdf,*/*;q=0\r\nUser-Agent: paket\r\n\r\n");
}

#[test]
fn documents() {
    let url = parse_address("http://example.com/").unwrap();
    match make_document(DocumentKind::Html, url.clone(), b"<title>Left over</title>".to_vec()) {
        Document::Html(u, mut reader) => {
            assert_eq!(u, url);
            assert_eq!(reader.extract_title().unwrap(), Some("Left over".to_string()));
        }
        _ => panic!("expected html"),
    }
    assert!(matches!(make_document(DocumentKind::Pdf, url.clone(), Vec::new()), Document::Pdf(_)));
    assert!(matches!(make_document(DocumentKind::Unsupported, url, Vec::new()), Document::Unsupported(_)));
}

#[test]
fn moved_permanently_to_relative_path() {
    let expected = classify_status(b"HTTP/1.1 301 Moved").unwrap();
    assert_eq!(expected, ExpectedHeader::Location);
    let value = match classify_header(expected, b"Location: /new/path") {
        Ok(HeaderLine::Location(v)) => v,
        _ => panic!("expected a location"),
    };
    let mut chain = RedirectChain::start("http://example.com/old").unwrap();
    chain.follow(&value).unwrap();
    assert_eq!(chain.into_url().href, "http://example.com/new/path");
}
