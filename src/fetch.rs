//! The decisions of a fetch: where to connect, what to send, whether to
//! follow a redirect, and what document came back. The caller performs the
//! network work that each decision asks for.
use vstd::prelude::*;
use vstd::string::*;
use vstd::utf8::*;
use crate::address::{parse_address, redirect_target, resolve_location, url_parse, WebUrl};
use crate::bytes::eq_at;
use crate::error::FetchError;
use crate::response::DocumentKind;
use crate::title::{HtmlBodyReader, TitleState};

verus! {

broadcast use vstd::utf8::encode_utf8_decode_utf8;

/// The most redirects that one fetch follows.
pub const MAX_REDIRECTS: usize = 5;

/// Compares two texts.
pub fn text_eq(a: &str, b: &str) -> (r: bool)
    ensures
        r == (a@ == b@),
{
    let x = a.as_bytes();
    let y = b.as_bytes();
    let r = eq_at(x, 0, x.len(), y);
    proof {
        assert(x@.subrange(0, x@.len() as int) =~= x@);
        if r {
            assert(decode_utf8(encode_utf8(a@)) == decode_utf8(encode_utf8(b@)));
        }
    }
    r
}

/// The request line and headers sent for `url` to `host`.
pub open spec fn request_text(path: Seq<char>, query: Option<String>, host: Seq<char>) -> Seq<char> {
    "GET "@ + path + match query {
        Some(q) => "?"@ + q@,
        None => Seq::empty(),
    } + " HTTP/1.1\r\nHost: "@ + host + "\r\nConnection: close\r\nAccept-Encoding: \r\nAccept: text/html,application/xhtml+xml,application/pdf,*/*;q=0\r\nUser-Agent: paket\r\n\r\n"@
}

/// Builds the request sent for a URL's path and query to its host.
pub fn build_request(path: &str, query: &Option<String>, host: &str) -> (r: String)
    ensures
        r@ == request_text(path@, *query, host@),
{
    let mut r = String::from_str("GET ");
    r.append(path);
    match query {
        Some(q) => {
            r.append("?");
            r.append(q.as_str());
        },
        None => {},
    }
    r.append(" HTTP/1.1\r\nHost: ");
    r.append(host);
    r.append(
        "\r\nConnection: close\r\nAccept-Encoding: \r\nAccept: text/html,application/xhtml+xml,application/pdf,*/*;q=0\r\nUser-Agent: paket\r\n\r\n",
    );
    assert(r@ =~= request_text(path@, *query, host@));
    r
}

/// One connection of a fetch: where to connect, whether through TLS, and
/// the request to send.
pub struct Hop {
    pub host: String,
    pub port: u16,
    pub tls: bool,
    pub request: String,
}

/// `r` is the plan for fetching `url`: plain TCP for `http`, TLS for
/// `https`, to the URL's host and port.
pub open spec fn plans(url: WebUrl, r: Result<Hop, FetchError>) -> bool {
    if url.scheme@ != "http"@ && url.scheme@ != "https"@ {
        r matches Err(FetchError::UnsupportedScheme)
    } else {
        match (url.host, url.port) {
            (Some(h), Some(p)) => {
                &&& r matches Ok(hop)
                &&& hop.host@ == h@
                &&& hop.port == p
                &&& hop.tls == (url.scheme@ == "https"@)
                &&& hop.request@ == request_text(url.path@, url.query, h@)
            },
            _ => r matches Err(FetchError::InvalidUrl),
        }
    }
}

/// Decides how to fetch `url`.
pub fn plan_hop(url: &WebUrl) -> (r: Result<Hop, FetchError>)
    ensures
        plans(*url, r),
{
    proof {
        reveal_strlit("http");
        reveal_strlit("https");
        assert("http"@.len() != "https"@.len());
    }
    let tls = if text_eq(url.scheme.as_str(), "http") {
        false
    } else if text_eq(url.scheme.as_str(), "https") {
        true
    } else {
        return Err(FetchError::UnsupportedScheme);
    };
    match (&url.host, url.port) {
        (Some(h), Some(p)) => {
            let request = build_request(url.path.as_str(), &url.query, h.as_str());
            Ok(Hop { host: h.clone(), port: p, tls, request })
        },
        _ => Err(FetchError::InvalidUrl),
    }
}

/// One redirect decision: from the URL `url`, reached after `n` redirects,
/// follow the `Location` value `v`.
pub open spec fn follow_step(url: WebUrl, n: nat, v: Seq<u8>) -> Result<(WebUrl, nat), FetchError> {
    match redirect_target(url.href@, v) {
        Err(e) => Err(e),
        Ok(u) => if n >= MAX_REDIRECTS {
            Err(FetchError::TooManyRedirects)
        } else {
            Ok((u, n + 1))
        },
    }
}

/// Following the `Location` values `vs` in turn, from `url` after `n`
/// redirects.
pub open spec fn follow_all(url: WebUrl, n: nat, vs: Seq<Seq<u8>>) -> Result<(WebUrl, nat), FetchError>
    decreases vs.len(),
{
    if vs.len() == 0 {
        Ok((url, n))
    } else {
        match follow_step(url, n, vs[0]) {
            Err(e) => Err(e),
            Ok((u, m)) => follow_all(u, m, vs.drop_first()),
        }
    }
}

proof fn lemma_redirect_count(url: WebUrl, n: nat, vs: Seq<Seq<u8>>)
    requires
        n <= MAX_REDIRECTS,
        forall|b: WebUrl, i: int| 0 <= i < vs.len() ==> #[trigger] redirect_target(b.href@, vs[i]) is Ok,
    ensures
        n + vs.len() <= MAX_REDIRECTS ==> follow_all(url, n, vs) is Ok,
        n + vs.len() > MAX_REDIRECTS ==> follow_all(url, n, vs) == Err::<(WebUrl, nat), FetchError>(
            FetchError::TooManyRedirects,
        ),
    decreases vs.len(),
{
    if vs.len() > 0 {
        assert(redirect_target(url.href@, vs[0]) is Ok);
        if n < MAX_REDIRECTS {
            let u = redirect_target(url.href@, vs[0])->Ok_0;
            let rest = vs.drop_first();
            assert forall|b: WebUrl, i: int| 0 <= i < rest.len() implies #[trigger] redirect_target(
                b.href@,
                rest[i],
            ) is Ok by {
                assert(rest[i] == vs[i + 1]);
            }
            lemma_redirect_count(u, n + 1, rest);
        }
    }
}

/// A run of redirects whose targets all resolve: up to `MAX_REDIRECTS` of
/// them are followed, and one more ends the fetch with `TooManyRedirects`.
pub proof fn lemma_redirect_bound(start: WebUrl, vs: Seq<Seq<u8>>)
    requires
        forall|b: WebUrl, i: int| 0 <= i < vs.len() ==> #[trigger] redirect_target(b.href@, vs[i]) is Ok,
    ensures
        vs.len() <= MAX_REDIRECTS ==> follow_all(start, 0, vs) is Ok,
        vs.len() > MAX_REDIRECTS ==> follow_all(start, 0, vs) == Err::<(WebUrl, nat), FetchError>(
            FetchError::TooManyRedirects,
        ),
{
    lemma_redirect_count(start, 0, vs);
}

/// Each redirect is read against the URL that the redirects before it led
/// to, not against the address the fetch started from.
pub proof fn lemma_redirect_against_previous(url: WebUrl, n: nat, vs: Seq<Seq<u8>>, v: Seq<u8>)
    ensures
        follow_all(url, n, vs.push(v)) == (match follow_all(url, n, vs) {
            Ok((u, m)) => follow_step(u, m, v),
            Err(e) => Err(e),
        }),
    decreases vs.len(),
{
    if vs.len() > 0 {
        assert(vs.push(v)[0] == vs[0]);
        assert(vs.push(v).drop_first() =~= vs.drop_first().push(v));
        match follow_step(url, n, vs[0]) {
            Ok((u, m)) => lemma_redirect_against_previous(u, m, vs.drop_first(), v),
            Err(_) => {},
        }
    } else {
        let w = vs.push(v);
        assert(w.drop_first() =~= Seq::<Seq<u8>>::empty());
        assert(w[0] == v);
        match follow_step(url, n, v) {
            Ok((u, m)) => {
                assert(follow_all(u, m, w.drop_first()) == Ok::<(WebUrl, nat), FetchError>((u, m)));
            },
            Err(_) => {},
        }
    }
}

/// The URL a fetch is at and how many redirects led there.
pub struct RedirectChain {
    url: WebUrl,
    redirects: usize,
}

impl RedirectChain {
    pub closed spec fn url(&self) -> WebUrl {
        self.url
    }

    pub closed spec fn redirects(&self) -> nat {
        self.redirects as nat
    }

    pub closed spec fn inv(&self) -> bool {
        self.redirects <= MAX_REDIRECTS
    }

    /// Starts a fetch of the address `s`.
    pub fn start(s: &str) -> (r: Result<Self, FetchError>)
        ensures
            match url_parse(s@) {
                Ok(u) => r matches Ok(c) && c.inv() && c.url() == u && c.redirects() == 0,
                Err(_) => r matches Err(FetchError::InvalidUrl),
            },
    {
        let url = parse_address(s)?;
        Ok(RedirectChain { url, redirects: 0 })
    }

    /// The URL to request next.
    pub fn current(&self) -> (r: &WebUrl)
        ensures
            *r == self.url(),
    {
        &self.url
    }

    /// The connection and request for the current URL.
    pub fn plan(&self) -> (r: Result<Hop, FetchError>)
        ensures
            plans(self.url(), r),
    {
        plan_hop(&self.url)
    }

    /// Follows a redirect whose `Location` value is `v`. The value is read
    /// against the URL that was just requested.
    pub fn follow(&mut self, v: &[u8]) -> (r: Result<(), FetchError>)
        requires
            old(self).inv(),
        ensures
            final(self).inv(),
            match follow_step(old(self).url(), old(self).redirects(), v@) {
                Ok((u, m)) => r is Ok && final(self).url() == u && final(self).redirects() == m,
                Err(e) => r == Err::<(), FetchError>(e) && final(self).url() == old(self).url()
                    && final(self).redirects() == old(self).redirects(),
            },
    {
        let next = resolve_location(&self.url, v)?;
        if self.redirects >= MAX_REDIRECTS {
            return Err(FetchError::TooManyRedirects);
        }
        self.url = next;
        self.redirects = self.redirects + 1;
        Ok(())
    }

    /// The URL reached, once the fetch stops following redirects.
    pub fn into_url(self) -> (r: WebUrl)
        ensures
            r == self.url(),
    {
        self.url
    }
}

/// A fetched document, by kind. An HTML document comes with the reader of
/// its title, which holds the bytes already read past the response head.
pub enum Document {
    Unsupported(WebUrl),
    Html(WebUrl, HtmlBodyReader),
    Pdf(WebUrl),
}

/// The document for a response of kind `kind` from `url`; `rest` is what
/// was read past the response head.
pub fn make_document(kind: DocumentKind, url: WebUrl, rest: Vec<u8>) -> (r: Document)
    ensures
        match kind {
            DocumentKind::Html => r matches Document::Html(u, b) && u == url && b.inv() && b.seen()
                == rest@ && b.state() == TitleState::Start,
            DocumentKind::Pdf => r matches Document::Pdf(u) && u == url,
            DocumentKind::Unsupported => r matches Document::Unsupported(u) && u == url,
        },
{
    match kind {
        DocumentKind::Html => Document::Html(url, HtmlBodyReader::new(rest)),
        DocumentKind::Pdf => Document::Pdf(url),
        DocumentKind::Unsupported => Document::Unsupported(url),
    }
}

} // verus!
