use paket::error::FetchError;
use paket::lines::LineReader;
use paket::response::{classify_header, classify_media, classify_status, DocumentKind, ExpectedHeader, HeaderLine, ResponseHead};

#[test]
fn status_redirect_and_content() {
    assert_eq!(classify_status(b"HTTP/1.1 301 Moved"), Ok(ExpectedHeader::Location));
    assert_eq!(classify_status(b"HTTP/1.1 200 OK"), Ok(ExpectedHeader::ContentType));
    assert_eq!(classify_status(b"HTTP/1.1 203"), Ok(ExpectedHeader::ContentType));
    for code in ["300", "302", "303", "307", "308"] {
        let line = format!("HTTP/1.1 {code} Redirect");
        assert_eq!(classify_status(line.as_bytes()), Ok(ExpectedHeader::Location));
    }
}

#[test]
fn status_errors() {
    assert_eq!(classify_status(b"HTTP/1.0 200 OK"), Err(FetchError::ProtocolViolation));
    assert_eq!(classify_status(b"HTTP/1.1"), Err(FetchError::ProtocolViolation));
    assert_eq!(classify_status(b""), Err(FetchError::ProtocolViolation));
    assert_eq!(classify_status(b"HTTP/1.1 404 Not Found"), Err(FetchError::UnexpectedStatus));
    assert_eq!(classify_status(b"HTTP/1.1 304 Not Modified"), Err(FetchError::UnexpectedStatus));
    assert_eq!(classify_status(b"HTTP/1.1  200"), Err(FetchError::UnexpectedStatus));
}

#[test]
fn location_header() {
    match classify_header(ExpectedHeader::Location, b"Location: /new/path") {
        Ok(HeaderLine::Location(v)) => assert_eq!(v, b"/new/path".to_vec()),
        _ => panic!("expected a location"),
    }
    match classify_header(ExpectedHeader::Location, b"location: http://a.example/x") {
        Ok(HeaderLine::Location(v)) => assert_eq!(v, b"http://a.example/x".to_vec()),
        _ => panic!("expected a location"),
    }
    assert!(matches!(classify_header(ExpectedHeader::Location, b"LOCATION: /x"), Ok(HeaderLine::Other)));
    assert!(matches!(classify_header(ExpectedHeader::Location, b"Content-Type: text/html"), Ok(HeaderLine::Other)));
    assert!(matches!(classify_header(ExpectedHeader::Location, b"Location"), Err(FetchError::ProtocolViolation)));
    assert!(matches!(classify_header(ExpectedHeader::Location, b""), Err(FetchError::MissingExpectedHeader)));
}

#[test]
fn content_type_header() {
    assert!(matches!(
        classify_header(ExpectedHeader::ContentType, b"Content-Type: APPLICATION/XHTML+XML; charset=utf-8"),
        Ok(HeaderLine::ContentType(DocumentKind::Html))
    ));
    assert!(matches!(
        classify_header(ExpectedHeader::ContentType, b"content-type: application/pdf"),
        Ok(HeaderLine::ContentType(DocumentKind::Pdf))
    ));
    assert!(matches!(
        classify_header(ExpectedHeader::ContentType, b"Content-Type: image/png"),
        Ok(HeaderLine::ContentType(DocumentKind::Unsupported))
    ));
    assert!(matches!(classify_header(ExpectedHeader::ContentType, b"Location: /x"), Ok(HeaderLine::Other)));
}

#[test]
fn media_types() {
    assert_eq!(classify_media(b"text/html"), DocumentKind::Html);
    assert_eq!(classify_media(b"TEXT/HTML; charset=utf-8"), DocumentKind::Html);
    assert_eq!(classify_media(b"application/xhtml+xml"), DocumentKind::Html);
    assert_eq!(classify_media(b"APPLICATION/XHTML+XML; charset=utf-8"), DocumentKind::Html);
    assert_eq!(classify_media(b"application/pdf"), DocumentKind::Pdf);
    assert_eq!(classify_media(b"APPLICATION/PDF"), DocumentKind::Pdf);
    assert_eq!(classify_media(b"Text/Html"), DocumentKind::Unsupported);
    assert_eq!(classify_media(b"text/html ; charset=utf-8"), DocumentKind::Unsupported);
    assert_eq!(classify_media(b""), DocumentKind::Unsupported);
}

#[test]
fn lines_keep_what_follows() {
    let mut lines = LineReader::new(Vec::new());
    assert_eq!(lines.next_line(), Ok(None));
    lines.push_bytes(b"HTTP/1.1 200 OK\r\nContent-Ty");
    assert_eq!(lines.next_line(), Ok(Some("HTTP/1.1 200 OK".to_string())));
    assert_eq!(lines.next_line(), Ok(None));
    lines.push_bytes(b"pe: text/html\r\n\r\n<html><title>T");
    assert_eq!(lines.next_line(), Ok(Some("Content-Type: text/html".to_string())));
    assert_eq!(lines.next_line(), Ok(Some(String::new())));
    assert_eq!(lines.into_remainder(), b"<html><title>T".to_vec());
}

#[test]
fn lines_without_carriage_return() {
    let mut lines = LineReader::new(b"one\ntwo\r\n\nrest".to_vec());
    assert_eq!(lines.next_line(), Ok(Some("one".to_string())));
    assert_eq!(lines.next_line(), Ok(Some("two".to_string())));
    assert_eq!(lines.next_line(), Ok(Some(String::new())));
    assert_eq!(lines.next_line(), Ok(None));
    assert_eq!(lines.into_remainder(), b"rest".to_vec());
}

#[test]
fn line_that_is_not_text() {
    let mut lines = LineReader::new(b"bad \xff line\r\n".to_vec());
    assert_eq!(lines.next_line(), Err(FetchError::NonUtf8Content));
}

#[test]
fn head_read_line_by_line() {
    let mut head = ResponseHead::new();
    assert!(matches!(head.on_line(b"HTTP/1.1 200 OK"), Ok(HeaderLine::Other)));
    assert!(matches!(head.on_line(b"Server: x"), Ok(HeaderLine::Other)));
    assert!(matches!(
        head.on_line(b"Content-Type: APPLICATION/XHTML+XML; charset=utf-8"),
        Ok(HeaderLine::ContentType(DocumentKind::Html))
    ));

    let mut head = ResponseHead::new();
    assert!(matches!(head.on_line(b"HTTP/1.1 302 Found"), Ok(HeaderLine::Other)));
    assert!(matches!(head.on_line(b"Content-Type: text/html"), Ok(HeaderLine::Other)));
    assert!(matches!(head.on_line(b""), Err(FetchError::MissingExpectedHeader)));

    let mut head = ResponseHead::new();
    assert!(matches!(head.on_line(b"HTTP/1.1 500 Oops"), Err(FetchError::UnexpectedStatus)));
}
