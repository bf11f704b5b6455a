//! Deciding, from the status line and one header, what a response is.
use vstd::prelude::*;
use vstd::string::*;
use crate::bytes::{copy_range, eq_at, find_byte_from, first_from, lower};
use vstd::utf8::{is_ascii_chars, is_ascii_chars_encode_utf8};
use crate::error::FetchError;

verus! {

/// ` `
pub const SP: u8 = 32;

/// `:`
pub const COLON: u8 = 58;

/// `;`
pub const SEMICOLON: u8 = 59;

/// The one header that a response status calls for.
#[derive(Debug, Clone, Copy, PartialEq, Eq, Structural)]
pub enum ExpectedHeader {
    /// A success status: the `Content-Type` header says what was sent.
    ContentType,
    /// A redirect status: the `Location` header says where to go.
    Location,
}

/// The kinds of document that a fetch tells apart.
#[derive(Debug, Clone, Copy, PartialEq, Eq, Structural)]
pub enum DocumentKind {
    Unsupported,
    Html,
    Pdf,
}

/// Where the space-separated field that starts at `from` ends.
pub open spec fn field_end(s: Seq<u8>, from: int) -> int {
    match first_from(s, SP, from) {
        Some(i) => i,
        None => s.len() as int,
    }
}

pub open spec fn is_content_status(code: Seq<u8>) -> bool {
    code == "200".spec_bytes() || code == "203".spec_bytes()
}

pub open spec fn is_redirect_status(code: Seq<u8>) -> bool {
    ||| code == "300".spec_bytes()
    ||| code == "301".spec_bytes()
    ||| code == "302".spec_bytes()
    ||| code == "303".spec_bytes()
    ||| code == "307".spec_bytes()
    ||| code == "308".spec_bytes()
}

/// What a status line asks for: its first field must be `HTTP/1.1` and its
/// second a handled status code.
pub open spec fn status_expectation(line: Seq<u8>) -> Result<ExpectedHeader, FetchError> {
    let e = field_end(line, 0);
    if line.subrange(0, e) != "HTTP/1.1".spec_bytes() {
        Err(FetchError::ProtocolViolation)
    } else if e == line.len() {
        Err(FetchError::ProtocolViolation)
    } else {
        let code = line.subrange(e + 1, field_end(line, e + 1));
        if is_content_status(code) {
            Ok(ExpectedHeader::ContentType)
        } else if is_redirect_status(code) {
            Ok(ExpectedHeader::Location)
        } else {
            Err(FetchError::UnexpectedStatus)
        }
    }
}

/// Reads a status line such as `HTTP/1.1 301 Moved`.
pub fn classify_status(line: &[u8]) -> (r: Result<ExpectedHeader, FetchError>)
    ensures
        r == status_expectation(line@),
{
    let n = line.len();
    let e = match find_byte_from(line, SP, 0) {
        Some(i) => i,
        None => n,
    };
    proof {
        crate::bytes::lemma_first_from(line@, SP, 0);
    }
    if !eq_at(line, 0, e, "HTTP/1.1".as_bytes()) {
        return Err(FetchError::ProtocolViolation);
    }
    if e == n {
        return Err(FetchError::ProtocolViolation);
    }
    let e2 = match find_byte_from(line, SP, e + 1) {
        Some(i) => i,
        None => n,
    };
    proof {
        crate::bytes::lemma_first_from(line@, SP, e + 1);
    }
    if eq_at(line, e + 1, e2, "200".as_bytes()) || eq_at(line, e + 1, e2, "203".as_bytes()) {
        Ok(ExpectedHeader::ContentType)
    } else if eq_at(line, e + 1, e2, "300".as_bytes()) || eq_at(line, e + 1, e2, "301".as_bytes())
        || eq_at(line, e + 1, e2, "302".as_bytes()) || eq_at(line, e + 1, e2, "303".as_bytes())
        || eq_at(line, e + 1, e2, "307".as_bytes()) || eq_at(line, e + 1, e2, "308".as_bytes()) {
        Ok(ExpectedHeader::Location)
    } else {
        Err(FetchError::UnexpectedStatus)
    }
}

/// The first `": "` at or after `from`.
pub open spec fn separator_from(s: Seq<u8>, from: int) -> Option<int>
    decreases s.len() - from,
{
    if from < 0 || from + 1 >= s.len() {
        None
    } else if s[from] == COLON && s[from + 1] == SP {
        Some(from)
    } else {
        separator_from(s, from + 1)
    }
}

proof fn lemma_separator_from(s: Seq<u8>, from: int)
    ensures
        separator_from(s, from) matches Some(i) ==> from <= i && i + 1 < s.len(),
    decreases s.len() - from,
{
    if 0 <= from && from + 1 < s.len() && !(s[from] == COLON && s[from + 1] == SP) {
        lemma_separator_from(s, from + 1);
    }
}

fn find_separator(s: &[u8], from: usize) -> (r: Option<usize>)
    ensures
        r == (match separator_from(s@, from as int) {
            Some(i) => Some(i as usize),
            None => None::<usize>,
        }),
{
    let n = s.len();
    let mut i = from;
    while i < n && i + 1 < n
        invariant
            from <= i,
            n == s@.len(),
            separator_from(s@, from as int) == separator_from(s@, i as int),
        decreases n - i,
    {
        if s[i] == COLON && s[i + 1] == SP {
            return Some(i);
        }
        i += 1;
    }
    None
}

/// The name of a header line: what comes before its first `": "`.
pub open spec fn header_name(line: Seq<u8>) -> Seq<u8> {
    match separator_from(line, 0) {
        Some(i) => line.subrange(0, i),
        None => line,
    }
}

/// The header name matches in one of its two usual spellings.
pub open spec fn names_expected(expected: ExpectedHeader, name: Seq<u8>) -> bool {
    match expected {
        ExpectedHeader::ContentType => name == "Content-Type".spec_bytes() || name
            == "content-type".spec_bytes(),
        ExpectedHeader::Location => name == "Location".spec_bytes() || name
            == "location".spec_bytes(),
    }
}

/// The value of a header line whose first `": "` is at `i`: up to the next
/// `": "`, or to the end.
pub open spec fn header_value(line: Seq<u8>, i: int) -> Seq<u8> {
    match separator_from(line, i + 2) {
        Some(j) => line.subrange(i + 2, j),
        None => line.subrange(i + 2, line.len() as int),
    }
}

/// A media type without its parameters.
pub open spec fn media_type(value: Seq<u8>) -> Seq<u8> {
    match first_from(value, SEMICOLON, 0) {
        Some(i) => value.subrange(0, i),
        None => value,
    }
}

/// The kind of document that a media type names.
pub open spec fn document_kind(media: Seq<u8>) -> DocumentKind {
    if media == "text/html".spec_bytes() || media == "TEXT/HTML".spec_bytes() || media
        == "application/xhtml+xml".spec_bytes() || media == "APPLICATION/XHTML+XML".spec_bytes() {
        DocumentKind::Html
    } else if media == "application/pdf".spec_bytes() || media == "APPLICATION/PDF".spec_bytes() {
        DocumentKind::Pdf
    } else {
        DocumentKind::Unsupported
    }
}

/// The byte with ASCII lower-case letters mapped to upper case.
pub open spec fn upper(b: u8) -> u8 {
    if 97 <= b <= 122 {
        (b - 32) as u8
    } else {
        b
    }
}

/// `m` holds no upper-case ASCII letter.
pub open spec fn in_lower_case(m: Seq<u8>) -> bool {
    forall|i: int| 0 <= i < m.len() ==> #[trigger] lower(m[i]) == m[i]
}

/// `m` with its ASCII letters in upper case.
pub open spec fn to_upper(m: Seq<u8>) -> Seq<u8> {
    m.map_values(|b: u8| upper(b))
}

/// The literal `l` is written in lower case, starts with a letter, and `u`
/// is the same literal in upper case.
proof fn lemma_case_pair(l: &str, u: &str)
    requires
        is_ascii_chars(l@),
        is_ascii_chars(u@),
        l@.len() == u@.len(),
        l@.len() > 0,
        97 <= l@[0] as u8 <= 122,
        forall|i: int| 0 <= i < l@.len() ==> #[trigger] lower(l@[i] as u8) == l@[i] as u8,
        forall|i: int| 0 <= i < l@.len() ==> #[trigger] (u@[i] as u8) == upper(l@[i] as u8),
    ensures
        in_lower_case(l.spec_bytes()),
        u.spec_bytes() == to_upper(l.spec_bytes()),
        l.spec_bytes().len() > 0,
        97 <= l.spec_bytes()[0] <= 122,
{
    is_ascii_chars_encode_utf8(l@);
    is_ascii_chars_encode_utf8(u@);
    let lb = l.spec_bytes();
    let ub = u.spec_bytes();
    assert forall|i: int| 0 <= i < lb.len() implies #[trigger] lower(lb[i]) == lb[i] by {
        assert(lb[i] == l@[i] as u8);
    }
    assert(ub =~= to_upper(lb)) by {
        assert forall|i: int| 0 <= i < ub.len() implies ub[i] == to_upper(lb)[i] by {
            assert(ub[i] == u@[i] as u8);
            assert(lb[i] == l@[i] as u8);
        }
    }
    assert(lb[0] == l@[0] as u8);
}

/// Comparing an upper-cased lower-case text with a lower-case literal and
/// with its upper-case form.
proof fn lemma_upper_matches(m: Seq<u8>, l: Seq<u8>, u: Seq<u8>)
    requires
        in_lower_case(m),
        in_lower_case(l),
        u == to_upper(l),
        l.len() > 0,
        97 <= l[0] <= 122,
    ensures
        (to_upper(m) == u) == (m == l),
        to_upper(m) != l,
        m != u,
{
    assert(to_upper(m).len() == m.len());
    assert(u.len() == l.len());
    if to_upper(m) == u {
        assert forall|i: int| 0 <= i < m.len() implies m[i] == l[i] by {
            assert(to_upper(m)[i] == u[i]);
            assert(lower(m[i]) == m[i]);
            assert(lower(l[i]) == l[i]);
        }
        assert(m =~= l);
    }
    if m == l {
        assert(to_upper(m) =~= u);
    }
    if to_upper(m) == l {
        assert(to_upper(m)[0] == l[0]);
    }
    if m == u {
        assert(lower(m[0]) == m[0]);
    }
}

/// Media types are told apart in their lower-case spelling and in its
/// all-capitals form alike: a media type written in lower case is
/// classified as its upper-case form is. (Spellings that mix cases are
/// not in the accepted list.)
pub proof fn lemma_media_case(m: Seq<u8>)
    requires
        in_lower_case(m),
    ensures
        document_kind(to_upper(m)) == document_kind(m),
{
    reveal_strlit("text/html");
    reveal_strlit("TEXT/HTML");
    reveal_strlit("application/xhtml+xml");
    reveal_strlit("APPLICATION/XHTML+XML");
    reveal_strlit("application/pdf");
    reveal_strlit("APPLICATION/PDF");
    lemma_case_pair("text/html", "TEXT/HTML");
    lemma_case_pair("application/xhtml+xml", "APPLICATION/XHTML+XML");
    lemma_case_pair("application/pdf", "APPLICATION/PDF");
    lemma_upper_matches(m, "text/html".spec_bytes(), "TEXT/HTML".spec_bytes());
    lemma_upper_matches(
        m,
        "application/xhtml+xml".spec_bytes(),
        "APPLICATION/XHTML+XML".spec_bytes(),
    );
    lemma_upper_matches(m, "application/pdf".spec_bytes(), "APPLICATION/PDF".spec_bytes());
}

/// Classifies the value of a `Content-Type` header.
pub fn classify_media(value: &[u8]) -> (r: DocumentKind)
    ensures
        r == document_kind(media_type(value@)),
{
    let n = value.len();
    let e = match find_byte_from(value, SEMICOLON, 0) {
        Some(i) => i,
        None => n,
    };
    proof {
        crate::bytes::lemma_first_from(value@, SEMICOLON, 0);
    }
    assert(value@.subrange(0, n as int) =~= value@);
    if eq_at(value, 0, e, "text/html".as_bytes()) || eq_at(value, 0, e, "TEXT/HTML".as_bytes())
        || eq_at(value, 0, e, "application/xhtml+xml".as_bytes()) || eq_at(
        value,
        0,
        e,
        "APPLICATION/XHTML+XML".as_bytes(),
    ) {
        DocumentKind::Html
    } else if eq_at(value, 0, e, "application/pdf".as_bytes()) || eq_at(
        value,
        0,
        e,
        "APPLICATION/PDF".as_bytes(),
    ) {
        DocumentKind::Pdf
    } else {
        DocumentKind::Unsupported
    }
}

/// What one header line means for a response whose status calls for
/// `expected`.
pub enum HeaderLine {
    /// Some other header.
    Other,
    /// The `Location` header, with its value.
    Location(Vec<u8>),
    /// The `Content-Type` header, by the kind of document it names.
    ContentType(DocumentKind),
}

/// `r` is what the header line `line` means for a response whose status
/// calls for `expected`. An empty line ends the headers, which is an error:
/// the expected header has not come.
pub open spec fn reads_header(expected: ExpectedHeader, line: Seq<u8>, r: Result<HeaderLine, FetchError>) -> bool {
    if line.len() == 0 {
        r matches Err(FetchError::MissingExpectedHeader)
    } else if !names_expected(expected, header_name(line)) {
        r matches Ok(HeaderLine::Other)
    } else {
        match separator_from(line, 0) {
            None => r matches Err(FetchError::ProtocolViolation),
            Some(i) => match expected {
                ExpectedHeader::Location => r matches Ok(HeaderLine::Location(v)) && v@
                    == header_value(line, i),
                ExpectedHeader::ContentType => r matches Ok(HeaderLine::ContentType(k)) && k
                    == document_kind(media_type(header_value(line, i))),
            },
        }
    }
}

/// Reads one header line.
pub fn classify_header(expected: ExpectedHeader, line: &[u8]) -> (r: Result<HeaderLine, FetchError>)
    ensures
        reads_header(expected, line@, r),
{
    let n = line.len();
    if n == 0 {
        return Err(FetchError::MissingExpectedHeader);
    }
    let sep = find_separator(line, 0);
    proof {
        lemma_separator_from(line@, 0);
    }
    let name_end = match sep {
        Some(i) => i,
        None => n,
    };
    assert(line@.subrange(0, n as int) =~= line@);
    let found = match expected {
        ExpectedHeader::ContentType => eq_at(line, 0, name_end, "Content-Type".as_bytes()) || eq_at(
            line,
            0,
            name_end,
            "content-type".as_bytes(),
        ),
        ExpectedHeader::Location => eq_at(line, 0, name_end, "Location".as_bytes()) || eq_at(
            line,
            0,
            name_end,
            "location".as_bytes(),
        ),
    };
    if !found {
        return Ok(HeaderLine::Other);
    }
    match sep {
        None => Err(FetchError::ProtocolViolation),
        Some(i) => {
            let value_end = match find_separator(line, i + 2) {
                Some(j) => j,
                None => n,
            };
            proof {
                lemma_separator_from(line@, i + 2);
            }
            let value = copy_range(line, i + 2, value_end);
            match expected {
                ExpectedHeader::Location => Ok(HeaderLine::Location(value)),
                ExpectedHeader::ContentType => Ok(HeaderLine::ContentType(classify_media(value.as_slice()))),
            }
        },
    }
}

/// Reads a response head line by line: the status line, then headers
/// until the one that the status calls for.
pub struct ResponseHead {
    expected: Option<ExpectedHeader>,
}

impl ResponseHead {
    /// The header being waited for, once the status line has been read.
    pub closed spec fn expected(&self) -> Option<ExpectedHeader> {
        self.expected
    }

    /// A head of which no line has been read.
    pub fn new() -> (r: Self)
        ensures
            r.expected() is None,
    {
        ResponseHead { expected: None }
    }

    /// Reads the next line of the head. `Other` means that more lines are
    /// needed; a `Location` or `Content-Type` ends the head.
    pub fn on_line(&mut self, line: &[u8]) -> (r: Result<HeaderLine, FetchError>)
        ensures
            match old(self).expected() {
                None => match status_expectation(line@) {
                    Ok(e) => r matches Ok(HeaderLine::Other) && final(self).expected() == Some(e),
                    Err(x) => r == Err::<HeaderLine, FetchError>(x),
                },
                Some(e) => reads_header(e, line@, r) && final(self).expected() == Some(e),
            },
    {
        match self.expected {
            None => {
                let e = classify_status(line)?;
                self.expected = Some(e);
                Ok(HeaderLine::Other)
            },
            Some(e) => classify_header(e, line),
        }
    }
}

} // verus!
