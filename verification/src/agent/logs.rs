//! Reading the end of a service log: where to start, and how the bytes are
//! turned into text (UTF-8, else GBK, else UTF-8 with replacements).
use vstd::prelude::*;
use vstd::utf8::{decode_utf8, valid_utf8};

verus! {

/// `std::str::from_utf8`: the text when the bytes are valid UTF-8.
#[verifier::external_body]
fn utf8_text(bytes: &[u8]) -> (r: Option<String>)
    ensures
        r is Some <==> valid_utf8(bytes@),
        r matches Some(s) ==> s@ == decode_utf8(bytes@),
{
    std::str::from_utf8(bytes).ok().map(|s| s.to_string())
}

/// What `encoding_rs::GBK.decode` gives for some bytes: the text and
/// whether malformed sequences were replaced.
pub uninterp spec fn gbk_decoding(bytes: Seq<u8>) -> (Seq<char>, bool);

/// `encoding_rs::GBK.decode`: the decoded text and its error flag, a
/// function of the bytes alone.
#[verifier::external_body]
fn gbk_decode(bytes: &[u8]) -> (r: (String, bool))
    ensures
        (r.0@, r.1) == gbk_decoding(bytes@),
{
    let (cow, _, had_errors) = encoding_rs::GBK.decode(bytes);
    (cow.into_owned(), had_errors)
}

/// What `String::from_utf8_lossy` gives for some bytes.
pub uninterp spec fn utf8_lossy(bytes: Seq<u8>) -> Seq<char>;

/// `String::from_utf8_lossy`: the text with invalid sequences replaced, a
/// function of the bytes alone.
#[verifier::external_body]
fn lossy_text(bytes: &[u8]) -> (r: String)
    ensures
        r@ == utf8_lossy(bytes@),
{
    String::from_utf8_lossy(bytes).into_owned()
}

/// The text of log bytes: UTF-8 first, then GBK, else lossy UTF-8.
pub open spec fn log_text(bytes: Seq<u8>) -> Seq<char> {
    if valid_utf8(bytes) {
        decode_utf8(bytes)
    } else if !gbk_decoding(bytes).1 {
        gbk_decoding(bytes).0
    } else {
        utf8_lossy(bytes)
    }
}

/// The choice made once GBK decoding has run: its text when it had no
/// errors, else the bytes read as lossy UTF-8.
pub fn after_gbk(decoded: String, had_errors: bool, bytes: &[u8]) -> (r: String)
    ensures
        !had_errors ==> r@ == decoded@,
        had_errors ==> r@ == utf8_lossy(bytes@),
{
    if !had_errors {
        decoded
    } else {
        lossy_text(bytes)
    }
}

/// Decode log bytes: UTF-8 first, then Windows GBK, else lossy UTF-8.
pub fn decode_log_bytes(buf: &[u8]) -> (r: String)
    ensures
        r@ == log_text(buf@),
{
    if let Some(s) = utf8_text(buf) {
        return s;
    }
    let (text, had_errors) = gbk_decode(buf);
    after_gbk(text, had_errors, buf)
}

/// Where reading starts to return at most `max_bytes` of a log of `len`
/// bytes.
pub fn tail_start(len: u64, max_bytes: u64) -> (r: u64)
    ensures
        r == if len > max_bytes {
            (len - max_bytes) as u64
        } else {
            0
        },
{
    if len > max_bytes {
        len - max_bytes
    } else {
        0
    }
}

} // verus!
