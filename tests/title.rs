use paket::title::HtmlBodyReader;
use paket::error::FetchError;

/// Runs a reader that starts with `buffer` over the reads in `chunks`, the
/// way a connection hands them over, until a title or the end.
fn run(buffer: Vec<u8>, chunks: &[&[u8]]) -> Result<Option<String>, FetchError> {
    let mut reader = HtmlBodyReader::new(buffer);
    let mut rest = chunks.iter();
    loop {
        if let Some(title) = reader.extract_title()? {
            return Ok(Some(title));
        }
        match rest.next() {
            Some(chunk) if !chunk.is_empty() => reader.push_bytes(chunk),
            _ => return Ok(None),
        }
    }
}

fn bytewise(input: &[u8]) -> Vec<&[u8]> {
    input.chunks(1).collect()
}

const HTML_WITH_TITLE: &[u8] = br#"
            <!DOCTYPE HTML PUBLIC "-//W3C//DTD HTML 3.2 Final//EN">
            <HTML>
                <HEAD>
                    <META NAME="foo" CONTENT="bar">
                    <tItLe>Hello Title!</tItLe>
                </HEAD>
                <BODY>
                </BODY>
            </HTML>
        "#;

const HTML_WITHOUT_TITLE: &[u8] = br#"
            <!DOCTYPE HTML PUBLIC "-//W3C//DTD HTML 3.2 Final//EN">
            <HTML>
                <HEAD>
                    <META NAME="foo" CONTENT="bar">
                </HEAD>
                <BODY>
                </BODY>
            </HTML>
        "#;

#[test]
fn extract_title_case_insensitive() {
    let title = run(Vec::with_capacity(64), &[HTML_WITH_TITLE]).unwrap();
    assert_eq!(title, Some("Hello Title!".to_string()));
}

#[test]
fn extract_title_with_non_empty_buffer() {
    let html = b"<title>Read Me!</title>";
    let title = run(vec![b'F'; 8], &[&html[..]]).unwrap();
    assert_eq!(title, Some("Read Me!".to_string()));
}

#[test]
fn extract_non_existent_title() {
    let title = run(Vec::with_capacity(64), &[HTML_WITHOUT_TITLE]).unwrap();
    assert_eq!(title, None);
}

#[test]
fn title_found_byte_by_byte() {
    let title = run(Vec::new(), &bytewise(HTML_WITH_TITLE)).unwrap();
    assert_eq!(title, Some("Hello Title!".to_string()));
}

#[test]
fn title_split_between_buffer_and_reads() {
    let title = run(b"<ti".to_vec(), &[b"tle lang=\"en\">Split", b" Tit", b"le</title>"]).unwrap();
    assert_eq!(title, Some("Split Title".to_string()));
}

#[test]
fn title_entirely_in_buffer() {
    let title = run(b"<p>x</p><title>Kept</title>".to_vec(), &[]).unwrap();
    assert_eq!(title, Some("Kept".to_string()));
}

#[test]
fn only_the_first_title_counts() {
    let title = run(Vec::new(), &[b"<TITLE>One</TITLE><title>Two</title>"]).unwrap();
    assert_eq!(title, Some("One".to_string()));
}

#[test]
fn unfinished_title_is_no_title() {
    assert_eq!(run(Vec::new(), &[b"<title>Never closed"]).unwrap(), None);
    assert_eq!(run(Vec::new(), &[b"<title"]).unwrap(), None);
    assert_eq!(run(Vec::new(), &[b"<tit"]).unwrap(), None);
}

#[test]
fn empty_body_is_no_title() {
    assert_eq!(run(Vec::new(), &[]).unwrap(), None);
}

#[test]
fn title_text_is_decoded_lossily() {
    let title = run(Vec::new(), &[b"<title>caf\xc3\xa9 \xff</title>"]).unwrap();
    assert_eq!(title, Some("caf\u{e9} \u{fffd}".to_string()));
}

#[test]
fn tag_name_that_is_not_text_is_an_error() {
    let r = run(Vec::new(), &[b"<\xe6\x97\xa5\xe6\x9c\xac><title>x</title>"]);
    assert_eq!(r, Err(FetchError::NonUtf8Content));
}

#[test]
fn start_state_keeps_few_bytes() {
    let mut reader = HtmlBodyReader::new(Vec::new());
    for _ in 0..100 {
        reader.push_bytes(&[b'x'; 97]);
        assert_eq!(reader.extract_title().unwrap(), None);
        assert!(reader.buffered_len() <= 4);
    }
    reader.push_bytes(b"<title>Late</title>");
    assert_eq!(reader.extract_title().unwrap(), Some("Late".to_string()));
}

#[test]
fn found_title_survives_more_input() {
    let mut reader = HtmlBodyReader::new(b"<title>A</title>".to_vec());
    assert_eq!(reader.extract_title().unwrap(), Some("A".to_string()));
    reader.push_bytes(b"<title>B</title>");
    assert_eq!(reader.extract_title().unwrap(), Some("A".to_string()));
}
