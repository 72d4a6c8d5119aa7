//! The responses the server sends, described as plain values: status, headers,
//! body and the body size reported to metrics.
use vstd::prelude::*;
use vstd::string::{StringExecFns, StringSliceAdditionalSpecFns};
use vstd::utf8::{decode_utf8, valid_utf8};

use crate::bindings::{mime_essence_for_extension, mime_for_extension, utf8_to_string};
use crate::path::{extension_range, path_extension};
use crate::request_path::{ResolveError, SLASH};

verus! {

/// `200 OK`.
pub const STATUS_OK: u16 = 200;
/// `400 Bad Request`.
pub const STATUS_BAD_REQUEST: u16 = 400;
/// `404 Not Found`.
pub const STATUS_NOT_FOUND: u16 = 404;
/// `405 Method Not Allowed`.
pub const STATUS_METHOD_NOT_ALLOWED: u16 = 405;
/// `500 Internal Server Error`.
pub const STATUS_INTERNAL_SERVER_ERROR: u16 = 500;
/// `503 Service Unavailable`.
pub const STATUS_SERVICE_UNAVAILABLE: u16 = 503;

/// Embedded welcome page served at `/` when no `index.html` is available.
pub const DEFAULT_INDEX_HTML: &'static str = "<!doctype html>\n<html lang=\"en\">\n<head>\n<meta charset=\"utf-8\">\n<title>tiny-httpd</title>\n</head>\n<body>\n<h1>tiny-httpd</h1>\n<p>No content root configured yet.</p>\n<p>Mount static files at the configured content root to replace this page.</p>\n</body>\n</html>\n";

/// What the response body carries.
pub enum ReplyBody {
    /// A static text body.
    Text(&'static str),
    /// The embedded welcome page.
    DefaultPage,
    /// The contents of the resolved file, streamed from disk.
    File,
    /// No body (answers to `HEAD`).
    Empty,
}

/// An HTTP response described as plain values, with the body size in bytes
/// (before any `HEAD` stripping) reported to metrics.
pub struct ResponseOutcome {
    /// Numeric HTTP status.
    pub status: u16,
    /// `Content-Type` header value.
    pub content_type: String,
    /// `Content-Length` header value.
    pub content_length: u64,
    /// Extra header name/value pairs appended after the standard headers.
    pub extra_headers: Vec<(&'static str, &'static str)>,
    /// Response body.
    pub body: ReplyBody,
    /// Response body size in bytes before `HEAD` stripping.
    pub body_size: u64,
}

/// The byte length of a static text.
pub open spec fn text_len(text: &'static str) -> nat {
    text.len() as nat
}

/// `o` is the plain-text response with `status`, `body` and extra `headers`:
/// UTF-8 plain text, `Content-Length` and body size equal to the body's byte
/// length.
pub open spec fn is_text_response(
    o: ResponseOutcome,
    status: u16,
    body: &'static str,
    headers: Seq<(&'static str, &'static str)>,
) -> bool {
    &&& o.status == status
    &&& o.content_type@ == "text/plain; charset=utf-8"@
    &&& o.content_length == text_len(body)
    &&& o.extra_headers@ == headers
    &&& o.body == ReplyBody::Text(body)
    &&& o.body_size == text_len(body)
}

/// Builds a plain-text response outcome with caller-supplied extra headers.
pub fn text_response_with_headers(
    status: u16,
    body: &'static str,
    headers: &[(&'static str, &'static str)],
) -> (res: ResponseOutcome)
    ensures
        is_text_response(res, status, body, headers@),
{
    let size = body.len() as u64;
    let mut extra: Vec<(&'static str, &'static str)> = Vec::new();
    let mut k: usize = 0;
    while k < headers.len()
        invariant
            k <= headers@.len(),
            extra@ == headers@.take(k as int),
        decreases headers@.len() - k,
    {
        extra.push(headers[k]);
        assert(headers@.take(k + 1) =~= headers@.take(k as int).push(headers@[k as int]));
        k = k + 1;
    }
    assert(headers@.take(k as int) =~= headers@);
    ResponseOutcome {
        status,
        content_type: String::from_str("text/plain; charset=utf-8"),
        content_length: size,
        extra_headers: extra,
        body: ReplyBody::Text(body),
        body_size: size,
    }
}

/// Builds a plain-text response outcome with no extra headers.
pub fn text_response(status: u16, body: &'static str) -> (res: ResponseOutcome)
    ensures
        is_text_response(res, status, body, seq![]),
{
    let none: Vec<(&'static str, &'static str)> = Vec::new();
    let res = text_response_with_headers(status, body, none.as_slice());
    assert(none@ =~= Seq::<(&'static str, &'static str)>::empty());
    res
}

/// `o` answers a request for the probe text `body` with `status`: the text
/// response, without its body for `HEAD`.
pub open spec fn is_probe_response(o: ResponseOutcome, head_only: bool, status: u16, body: &'static str) -> bool {
    &&& o.status == status
    &&& o.content_type@ == "text/plain; charset=utf-8"@
    &&& o.content_length == text_len(body)
    &&& o.extra_headers@ == Seq::<(&'static str, &'static str)>::empty()
    &&& o.body == (if head_only { ReplyBody::Empty } else { ReplyBody::Text(body) })
    &&& o.body_size == text_len(body)
}

/// Builds a liveness or readiness response, keeping `Content-Length` and the
/// body size for `HEAD` while dropping the body.
pub fn probe_response(head_only: bool, status: u16, body: &'static str) -> (res: ResponseOutcome)
    ensures
        is_probe_response(res, head_only, status, body),
{
    let mut outcome = text_response(status, body);
    if head_only {
        outcome.body = ReplyBody::Empty;
    }
    outcome
}

/// `o` is the embedded welcome page: `200`, HTML, its full length, and its
/// body unless `head_only`.
pub open spec fn is_default_page(o: ResponseOutcome, head_only: bool) -> bool {
    &&& o.status == STATUS_OK
    &&& o.content_type@ == "text/html; charset=utf-8"@
    &&& o.content_length == text_len(DEFAULT_INDEX_HTML)
    &&& o.extra_headers@ == Seq::<(&'static str, &'static str)>::empty()
    &&& o.body == (if head_only { ReplyBody::Empty } else { ReplyBody::DefaultPage })
    &&& o.body_size == text_len(DEFAULT_INDEX_HTML)
}

/// Builds the response for the embedded welcome page.
pub fn default_index_outcome(head_only: bool) -> (res: ResponseOutcome)
    ensures
        is_default_page(res, head_only),
{
    let size = DEFAULT_INDEX_HTML.len() as u64;
    ResponseOutcome {
        status: STATUS_OK,
        content_type: String::from_str("text/html; charset=utf-8"),
        content_length: size,
        extra_headers: Vec::new(),
        body: if head_only { ReplyBody::Empty } else { ReplyBody::DefaultPage },
        body_size: size,
    }
}

/// `path` is exactly `/`.
pub open spec fn is_root_path(path: Seq<u8>) -> bool {
    path == seq![SLASH]
}

/// Tests whether a request path is exactly `/`.
pub fn path_is_root(path: &str) -> (res: bool)
    ensures
        res == is_root_path(path.spec_bytes()),
{
    let p = path.as_bytes();
    let res = p.len() == 1 && p[0] == SLASH;
    assert(res ==> p@ =~= seq![SLASH]);
    res
}

/// With no content root to read, `/` is answered with the welcome page and
/// every other path with `404`.
pub fn fallback_default_response(path: &str, head_only: bool) -> (res: ResponseOutcome)
    ensures
        if is_root_path(path.spec_bytes()) {
            is_default_page(res, head_only)
        } else {
            is_text_response(res, STATUS_NOT_FOUND, "not found\n", seq![])
        },
{
    if path_is_root(path) {
        default_index_outcome(head_only)
    } else {
        text_response(STATUS_NOT_FOUND, "not found\n")
    }
}

/// The status a file-resolution failure is answered with: `400` for a
/// malformed, unsafe or escaping path, `404` when nothing was found, `500`
/// for an I/O failure.
pub open spec fn error_status(e: ResolveError) -> u16 {
    match e {
        ResolveError::NotFound => STATUS_NOT_FOUND,
        ResolveError::Io(_) => STATUS_INTERNAL_SERVER_ERROR,
        _ => STATUS_BAD_REQUEST,
    }
}

/// The plain-text body a file-resolution failure is answered with.
pub open spec fn error_body(e: ResolveError) -> &'static str {
    match e {
        ResolveError::NotFound => "not found\n",
        ResolveError::Io(_) => "internal server error\n",
        _ => "bad request\n",
    }
}

/// Maps a file-resolution failure to a client-safe plain-text response.
pub fn map_file_error(error: ResolveError) -> (res: ResponseOutcome)
    ensures
        is_text_response(res, error_status(error), error_body(error), seq![]),
{
    match error {
        ResolveError::NotFound => text_response(STATUS_NOT_FOUND, "not found\n"),
        ResolveError::Io(_) => text_response(STATUS_INTERNAL_SERVER_ERROR, "internal server error\n"),
        _ => text_response(STATUS_BAD_REQUEST, "bad request\n"),
    }
}

/// The `Content-Type` for a file at canonical path `path`: what `mime_guess`
/// gives for its UTF-8 extension, `application/octet-stream` when it has no
/// extension or one that is not UTF-8.
pub open spec fn spec_content_type(path: Seq<u8>) -> Seq<char> {
    match path_extension(path) {
        Some(ext) => if valid_utf8(ext) {
            mime_essence_for_extension(decode_utf8(ext))
        } else {
            "application/octet-stream"@
        },
        None => "application/octet-stream"@,
    }
}

/// Guesses the `Content-Type` of a file from the extension of its canonical path.
pub fn content_type_for(path: &[u8]) -> (res: String)
    ensures
        res@ == spec_content_type(path@),
{
    match extension_range(path) {
        None => String::from_str("application/octet-stream"),
        Some((start, end)) => {
            let mut ext: Vec<u8> = Vec::new();
            let mut k: usize = start;
            while k < end
                invariant
                    start <= k <= end <= path@.len(),
                    ext@ == path@.subrange(start as int, k as int),
                decreases end - k,
            {
                ext.push(path[k]);
                assert(path@.subrange(start as int, k + 1) =~= path@.subrange(start as int, k as int).push(path@[k as int]));
                k = k + 1;
            }
            match utf8_to_string(ext) {
                Some(text) => mime_for_extension(text.as_str()),
                None => String::from_str("application/octet-stream"),
            }
        },
    }
}

/// `o` serves a resolved file of `content_length` bytes with `content_type`.
pub open spec fn is_file_response(o: ResponseOutcome, content_type: Seq<char>, content_length: u64, head_only: bool) -> bool {
    &&& o.status == STATUS_OK
    &&& o.content_type@ == content_type
    &&& o.content_length == content_length
    &&& o.extra_headers@ == Seq::<(&'static str, &'static str)>::empty()
    &&& o.body == (if head_only { ReplyBody::Empty } else { ReplyBody::File })
    &&& o.body_size == content_length
}

/// Builds the `200` response for a resolved file whose type was guessed as
/// `content_type`.
pub fn file_response_with_type(content_type: String, content_length: u64, head_only: bool) -> (res: ResponseOutcome)
    ensures
        is_file_response(res, content_type@, content_length, head_only),
{
    ResponseOutcome {
        status: STATUS_OK,
        content_type,
        content_length,
        extra_headers: Vec::new(),
        body: if head_only { ReplyBody::Empty } else { ReplyBody::File },
        body_size: content_length,
    }
}

/// Builds the `200` response for the file at `canonical_path`, typed by its
/// extension.
pub fn file_response(canonical_path: &[u8], content_length: u64, head_only: bool) -> (res: ResponseOutcome)
    ensures
        is_file_response(res, spec_content_type(canonical_path@), content_length, head_only),
{
    let content_type = content_type_for(canonical_path);
    file_response_with_type(content_type, content_length, head_only)
}

} // verus!
