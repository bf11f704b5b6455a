//! What a saved article is called, and the identifier it is stored under.
use vstd::prelude::*;
use vstd::string::*;
use crate::address::WebUrl;

verus! {

/// Where the last segment of `p[..i]` begins: just after its last `/`.
pub open spec fn segment_start(p: Seq<char>, i: int) -> int
    decreases i,
{
    if i <= 0 {
        0
    } else if p[i - 1] == '/' {
        i
    } else {
        segment_start(p, i - 1)
    }
}

/// The last segment of a URL path, where the path has segments: it does
/// when it begins with `/`.
pub open spec fn last_segment(p: Seq<char>) -> Option<Seq<char>> {
    if p.len() > 0 && p[0] == '/' {
        Some(p.subrange(segment_start(p, p.len() as int), p.len() as int))
    } else {
        None
    }
}

proof fn lemma_segment_start(p: Seq<char>, i: int)
    requires
        0 <= i <= p.len(),
    ensures
        0 <= segment_start(p, i) <= i,
    decreases i,
{
    if i > 0 && p[i - 1] != '/' {
        lemma_segment_start(p, i - 1);
    }
}

/// The title of a document whose kind is not handled.
pub fn unsupported_title(url: &WebUrl) -> (r: String)
    ensures
        r@ == "[???] "@ + url.href@,
{
    let mut r = String::from_str("[???] ");
    r.append(url.href.as_str());
    r
}

/// The title of a PDF document: the last segment of its path, or the whole
/// URL where the path has no segments.
pub fn pdf_title(url: &WebUrl) -> (r: String)
    ensures
        r@ == "[PDF] "@ + match last_segment(url.path@) {
            Some(s) => s,
            None => url.href@,
        },
{
    let path = url.path.as_str();
    let n = path.unicode_len();
    let mut r = String::from_str("[PDF] ");
    if n > 0 && path.get_char(0) == '/' {
        let mut i = n;
        while i > 0 && path.get_char(i - 1) != '/'
            invariant
                0 <= i <= n,
                n == path@.len(),
                segment_start(path@, n as int) == segment_start(path@, i as int),
            decreases i,
        {
            i = i - 1;
        }
        proof {
            lemma_segment_start(path@, i as int);
        }
        r.append(path.substring_char(i, n));
    } else {
        r.append(url.href.as_str());
    }
    r
}

/// The title of an HTML document: the one found in it, or else its URL.
pub fn html_title(url: &WebUrl, found: Option<String>) -> (r: String)
    ensures
        r@ == match found {
            Some(t) => t@,
            None => url.href@,
        },
{
    match found {
        Some(t) => t,
        None => String::from_str(url.href.as_str()),
    }
}

/// The identifier derived from the bytes `b` of a URL: a name-based UUID
/// in the URL namespace, in its hyphenated text form.
pub uninterp spec fn url_guid(b: Seq<u8>) -> Seq<char>;

/// Relies on uuid::Uuid::new_v5 with Uuid::NAMESPACE_URL, written out by
/// its Display impl.
#[verifier::external_body]
fn name_based_uuid(b: &[u8]) -> (r: String)
    ensures
        r@ == url_guid(b@),
{
    uuid::Uuid::new_v5(&uuid::Uuid::NAMESPACE_URL, b).to_string()
}

/// The identifier an article is stored under: the same for the same URL.
pub fn article_guid(url: &WebUrl) -> (r: String)
    ensures
        r@ == url_guid(vstd::utf8::encode_utf8(url.href@)),
{
    name_based_uuid(url.href.as_str().as_bytes())
}

} // verus!
