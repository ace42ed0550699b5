//! Decoders from outside crates and std that the link formats rely on:
//! Base64, UTF-8 and percent-encoding.

use vstd::prelude::*;

verus! {

/// What `base64::decode` (standard alphabet, padding optional) reads from a
/// text: the bytes, or the text of its error.
pub uninterp spec fn spec_base64_decode(text: Seq<char>) -> Result<Seq<u8>, Seq<char>>;

/// What `String::from_utf8` makes of bytes: the text they hold, or the
/// text of its error.
pub uninterp spec fn spec_utf8_decode(bytes: Seq<u8>) -> Result<Seq<char>, Seq<char>>;

/// What `urlencoding::decode` makes of a percent-encoded text: the decoded
/// text, or the text of its error when the decoded bytes are no UTF-8.
pub uninterp spec fn spec_url_decode(text: Seq<char>) -> Result<Seq<char>, Seq<char>>;

/// Decodes Base64 with `base64::decode`. Claimed: the result, and the text
/// of an error, are a function of the text alone (`spec_base64_decode`).
#[verifier::external_body]
pub(crate) fn base64_decode(text: &str) -> (res: Result<Vec<u8>, String>)
    ensures
        match res {
            Ok(b) => spec_base64_decode(text@) == Ok::<Seq<u8>, Seq<char>>(b@),
            Err(m) => spec_base64_decode(text@) == Err::<Seq<u8>, Seq<char>>(m@),
        },
{
    match base64::decode(text) {
        Ok(b) => Ok(b),
        Err(e) => Err(e.to_string()),
    }
}

/// Reads UTF-8 with `String::from_utf8`. Claimed: the result, and the text
/// of an error, are a function of the bytes alone (`spec_utf8_decode`).
#[verifier::external_body]
pub(crate) fn utf8_decode(bytes: Vec<u8>) -> (res: Result<String, String>)
    ensures
        match res {
            Ok(s) => spec_utf8_decode(bytes@) == Ok::<Seq<char>, Seq<char>>(s@),
            Err(m) => spec_utf8_decode(bytes@) == Err::<Seq<char>, Seq<char>>(m@),
        },
{
    match String::from_utf8(bytes) {
        Ok(s) => Ok(s),
        Err(e) => Err(e.to_string()),
    }
}

/// Decodes percent-encoding with `urlencoding::decode`. Claimed: the
/// result, and the text of an error, are a function of the text alone
/// (`spec_url_decode`); a text without `'%'` comes back unchanged (the crate
/// returns it borrowed as it is), so only a text with `'%'` can fail.
#[verifier::external_body]
pub(crate) fn url_decode(text: &str) -> (res: Result<String, String>)
    ensures
        match res {
            Ok(s) => spec_url_decode(text@) == Ok::<Seq<char>, Seq<char>>(s@),
            Err(m) => spec_url_decode(text@) == Err::<Seq<char>, Seq<char>>(m@),
        },
        res matches Ok(s) ==> (!text@.contains('%') ==> s@ == text@),
        res is Err ==> text@.contains('%'),
{
    match urlencoding::decode(text) {
        Ok(s) => Ok(s.into_owned()),
        Err(e) => Err(e.to_string()),
    }
}

} // verus!
