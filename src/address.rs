//! URLs as the fetch logic reads them, and the resolution of redirect
//! targets.
use vstd::prelude::*;
use vstd::utf8::*;
use crate::error::FetchError;
use crate::text::utf8_text;

verus! {

/// A parsed absolute URL, by the parts that a fetch reads.
#[derive(Debug, Clone, PartialEq, Eq)]
pub struct WebUrl {
    /// The URL as text.
    pub href: String,
    /// The scheme, in lower case, without the `:`.
    pub scheme: String,
    /// The host, where the URL has one.
    pub host: Option<String>,
    /// The port, given or the scheme's default.
    pub port: Option<u16>,
    /// The path.
    pub path: String,
    /// The query, without the `?`.
    pub query: Option<String>,
}

/// Why a text is not an absolute URL.
#[derive(Debug, Clone, Copy, PartialEq, Eq, Structural)]
pub enum UrlFault {
    /// It is a relative reference, which needs a base URL.
    RelativeWithoutBase,
    /// It is not a URL at all.
    Invalid,
}

/// The URL that the text `s` names, as the WHATWG URL parser reads it.
pub uninterp spec fn url_parse(s: Seq<char>) -> Result<WebUrl, UrlFault>;

/// The URL that the text `s` names when read against the URL whose text is
/// `base`.
pub uninterp spec fn url_join(base: Seq<char>, s: Seq<char>) -> Result<WebUrl, UrlFault>;

/// Relies on url::Url::parse, and on the accessors that read the parsed
/// URL's parts.
#[verifier::external_body]
pub(crate) fn parse_url(s: &str) -> (r: Result<WebUrl, UrlFault>)
    ensures
        r == url_parse(s@),
{
    match url::Url::parse(s) {
        Ok(u) => Ok(WebUrl {
            href: u.as_str().to_string(),
            scheme: u.scheme().to_string(),
            host: u.host_str().map(String::from),
            port: u.port_or_known_default(),
            path: u.path().to_string(),
            query: u.query().map(String::from),
        }),
        Err(url::ParseError::RelativeUrlWithoutBase) => Err(UrlFault::RelativeWithoutBase),
        Err(_) => Err(UrlFault::Invalid),
    }
}

/// Relies on url::Url::join, on the URL that `base.href` spells.
#[verifier::external_body]
pub(crate) fn join_url(base: &WebUrl, s: &str) -> (r: Result<WebUrl, UrlFault>)
    ensures
        r == url_join(base.href@, s@),
{
    let joined = match url::Url::parse(&base.href) {
        Ok(b) => b.join(s),
        Err(e) => Err(e),
    };
    match joined {
        Ok(u) => Ok(WebUrl {
            href: u.as_str().to_string(),
            scheme: u.scheme().to_string(),
            host: u.host_str().map(String::from),
            port: u.port_or_known_default(),
            path: u.path().to_string(),
            query: u.query().map(String::from),
        }),
        Err(_) => Err(UrlFault::Invalid),
    }
}

/// Reads the address a fetch starts from.
pub fn parse_address(s: &str) -> (r: Result<WebUrl, FetchError>)
    ensures
        r == (match url_parse(s@) {
            Ok(u) => Ok(u),
            Err(_) => Err(FetchError::InvalidUrl),
        }),
{
    match parse_url(s) {
        Ok(u) => Ok(u),
        Err(_) => Err(FetchError::InvalidUrl),
    }
}

/// Where a `Location` value `v` leads from the URL whose text is `base`:
/// an absolute URL stands for itself, a relative one is read against `base`.
pub open spec fn redirect_target(base: Seq<char>, v: Seq<u8>) -> Result<WebUrl, FetchError> {
    if !valid_utf8(v) {
        Err(FetchError::NonUtf8Content)
    } else {
        target_after_parse(base, decode_utf8(v), url_parse(decode_utf8(v)))
    }
}

/// `redirect_target` once the value `text` has been parsed on its own.
pub open spec fn target_after_parse(
    base: Seq<char>,
    text: Seq<char>,
    parsed: Result<WebUrl, UrlFault>,
) -> Result<WebUrl, FetchError> {
    match parsed {
        Ok(u) => Ok(u),
        Err(UrlFault::RelativeWithoutBase) => target_after_join(url_join(base, text)),
        Err(UrlFault::Invalid) => Err(FetchError::InvalidRedirectTarget),
    }
}

/// `redirect_target` once a relative value has been read against the base.
pub open spec fn target_after_join(joined: Result<WebUrl, UrlFault>) -> Result<WebUrl, FetchError> {
    match joined {
        Ok(u) => Ok(u),
        Err(_) => Err(FetchError::InvalidRedirectTarget),
    }
}

/// Finishes resolving a `Location` value from the result of joining it to
/// the current URL.
pub fn settle_join(joined: Result<WebUrl, UrlFault>) -> (r: Result<WebUrl, FetchError>)
    ensures
        r == target_after_join(joined),
{
    match joined {
        Ok(u) => Ok(u),
        Err(_) => Err(FetchError::InvalidRedirectTarget),
    }
}

/// Finishes resolving a `Location` value `text` from the result of parsing
/// it on its own: only a relative reference is read against `base`.
pub fn settle_parse(base: &WebUrl, text: &str, parsed: Result<WebUrl, UrlFault>) -> (r: Result<
    WebUrl,
    FetchError,
>)
    ensures
        r == target_after_parse(base.href@, text@, parsed),
{
    match parsed {
        Ok(u) => Ok(u),
        Err(UrlFault::RelativeWithoutBase) => settle_join(join_url(base, text)),
        Err(UrlFault::Invalid) => Err(FetchError::InvalidRedirectTarget),
    }
}

/// Resolves the value of a `Location` header against the URL that was
/// requested.
pub fn resolve_location(base: &WebUrl, value: &[u8]) -> (r: Result<WebUrl, FetchError>)
    ensures
        r == redirect_target(base.href@, value@),
{
    match utf8_text(value) {
        None => Err(FetchError::NonUtf8Content),
        Some(text) => {
            let parsed = parse_url(text.as_str());
            settle_parse(base, text.as_str(), parsed)
        },
    }
}

} // verus!
