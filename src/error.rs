use vstd::prelude::*;

verus! {

/// Every way a fetch, or the title extraction that follows it, can fail.
#[derive(Debug, Clone, Copy, PartialEq, Eq, Structural)]
pub enum FetchError {
    /// The address handed in is not a URL.
    InvalidUrl,
    /// The URL's scheme is neither `http` nor `https`.
    UnsupportedScheme,
    /// The TCP connection could not be made.
    ConnectFailure,
    /// The TLS handshake failed.
    TlsHandshakeFailure,
    /// Reading or writing failed in the middle of the exchange.
    IoFailure,
    /// The connection closed while a line was still needed.
    UnexpectedEof,
    /// The response does not have the shape of an HTTP/1.1 response.
    ProtocolViolation,
    /// The headers ended without the one the status calls for.
    MissingExpectedHeader,
    /// A status outside the handled success and redirect codes.
    UnexpectedStatus,
    /// More redirects in a row than a fetch follows.
    TooManyRedirects,
    /// A `Location` value that names no URL, even against the current one.
    InvalidRedirectTarget,
    /// A line or a tag name that is not well-formed UTF-8.
    NonUtf8Content,
}

} // verus!
