//! Decoding bytes into text.
use vstd::prelude::*;
use vstd::utf8::*;

verus! {

/// The text that lossy UTF-8 decoding makes of `b`: each ill-formed
/// sequence becomes U+FFFD.
pub uninterp spec fn lossy_text(b: Seq<u8>) -> Seq<char>;

/// Relies on std::str::from_utf8: it succeeds exactly on well-formed UTF-8,
/// and then yields the characters that the bytes encode.
#[verifier::external_body]
pub(crate) fn utf8_text(b: &[u8]) -> (r: Option<String>)
    ensures
        r is Some <==> valid_utf8(b@),
        r matches Some(t) ==> t@ == decode_utf8(b@),
{
    std::str::from_utf8(b).ok().map(String::from)
}

/// Relies on String::from_utf8_lossy: well-formed input decodes as is,
/// anything else through `lossy_text`.
#[verifier::external_body]
pub(crate) fn utf8_lossy(b: &[u8]) -> (r: String)
    ensures
        r@ == lossy_text(b@),
        valid_utf8(b@) ==> r@ == decode_utf8(b@),
{
    String::from_utf8_lossy(b).into_owned()
}

} // verus!
