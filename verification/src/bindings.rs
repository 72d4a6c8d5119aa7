//! Trusted declarations for the standard-library and outside-crate calls that
//! the verified code makes. Nothing here is proved: each contract restates
//! what the called function's documentation or source shows.
use vstd::prelude::*;
use vstd::utf8::{decode_utf8, valid_utf8};

use crate::cli::{duration_bound, Timeout};

verus! {

/// `std::io::Error`, carried through unchanged as the payload of an I/O failure.
#[verifier::external_type_specification]
#[verifier::external_body]
pub struct ExIoError(std::io::Error);

/// Calls `String::from_utf8`. Its documentation says it fails exactly when the
/// bytes are not valid UTF-8 and otherwise returns the string they encode,
/// without copying; the contract states both halves.
#[verifier::external_body]
pub(crate) fn utf8_to_string(bytes: Vec<u8>) -> (res: Option<String>)
    ensures
        res is Some <==> valid_utf8(bytes@),
        res matches Some(s) ==> s@ == decode_utf8(bytes@),
{
    String::from_utf8(bytes).ok()
}

/// The MIME essence (`type/subtype`, without parameters) that `mime_guess`
/// gives first for a file extension, or `application/octet-stream` when it
/// knows none. The table is the crate's; only what it maps an extension to is
/// named here.
pub uninterp spec fn mime_essence_for_extension(ext: Seq<char>) -> Seq<char>;

/// Calls `mime_guess::from_ext(ext).first_or_octet_stream()` and returns the
/// essence of that MIME type. The lookup depends on the extension alone; the
/// crate's source returns an empty guess, hence `application/octet-stream`,
/// for the empty extension.
#[verifier::external_body]
pub(crate) fn mime_for_extension(ext: &str) -> (res: String)
    ensures
        res@ == mime_essence_for_extension(ext@),
        ext@.len() == 0 ==> res@ == "application/octet-stream"@,
{
    mime_guess::from_ext(ext).first_or_octet_stream().essence_str().to_string()
}

/// What `humantime::parse_duration` gives for a text: the duration as whole
/// seconds and nanoseconds, or the text of its error. The grammar and the
/// error messages are the crate's; only the result, which depends on the text
/// alone, is named here.
pub uninterp spec fn humantime_duration(text: Seq<char>) -> Result<(u64, u32), Seq<char>>;

/// Calls `humantime::parse_duration` and splits the duration into whole
/// seconds and nanoseconds; an error is turned into its display text.
///
/// `humantime` adds up the spans of a text with checked arithmetic, but it
/// carries nanoseconds into seconds only above 10^9, so reaching exactly
/// `u64::MAX` seconds and 10^9 nanoseconds makes its final `Duration::new`
/// panic, at a running total of `u64::MAX + 1` seconds. Every span adds less
/// than its amount plus one (for a fraction) times the longest unit with the
/// same first letters, and a span whose unit it does not know, or a number
/// that overflows `u64`, ends the parse with an error before anything is
/// added. [`duration_bound`] sums exactly these bounds, so when it is at most
/// `u64::MAX` no running total reaches `u64::MAX + 1` and the call returns.
#[verifier::external_body]
pub(crate) fn parse_human_duration(text: &str) -> (res: Result<Timeout, String>)
    requires
        duration_bound(text@) <= u64::MAX,
    ensures
        match (res, humantime_duration(text@)) {
            (Ok(t), Ok((secs, nanos))) => t.secs == secs && t.nanos == nanos,
            (Err(m), Err(n)) => m@ == n,
            _ => false,
        },
{
    match humantime::parse_duration(text) {
        Ok(duration) => Ok(Timeout { secs: duration.as_secs(), nanos: duration.subsec_nanos() }),
        Err(error) => Err(error.to_string()),
    }
}

} // verus!
