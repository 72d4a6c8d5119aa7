//! Request routing: probes first, then method checks, the shutdown drain and
//! static files, each answered by a response plan.
use vstd::prelude::*;
use vstd::string::StringSliceAdditionalSpecFns;

use crate::lookup::ResolvedFile;
use crate::reply::{
    default_index_outcome, error_body, error_status, fallback_default_response, file_response,
    is_default_page, is_file_response, is_probe_response, is_root_path, is_text_response,
    map_file_error, path_is_root, probe_response, spec_content_type, text_response,
    text_response_with_headers, ResponseOutcome, STATUS_METHOD_NOT_ALLOWED, STATUS_NOT_FOUND,
    STATUS_OK, STATUS_SERVICE_UNAVAILABLE,
};
use crate::request_path::{ResolveError, SLASH};

verus! {

/// The request methods the router tells apart.
#[derive(Clone, Copy, Debug, PartialEq, Eq, Structural)]
pub enum Method {
    /// `GET`.
    Get,
    /// `HEAD`.
    Head,
    /// Any other method.
    Other,
}

/// The readiness flags shared by all request handlers.
#[derive(Clone, Copy, Debug)]
pub struct ServerStatus {
    /// Startup is complete and shutdown has not begun.
    pub ready: bool,
    /// Graceful shutdown has begun; non-probe requests are refused.
    pub shutting_down: bool,
}

impl ServerStatus {
    /// The flags of a freshly started server: ready, not shutting down.
    pub fn new() -> (res: Self)
        ensures
            res.ready,
            !res.shutting_down,
    {
        ServerStatus { ready: true, shutting_down: false }
    }

    /// Marks the server not ready and draining for graceful shutdown.
    pub fn begin_shutdown(&mut self)
        ensures
            !final(self).ready,
            final(self).shutting_down,
    {
        self.ready = false;
        self.shutting_down = true;
    }
}

/// The bytes of `/livez`.
pub open spec fn livez_path() -> Seq<u8> {
    seq![SLASH, 0x6cu8, 0x69, 0x76, 0x65, 0x7a]
}

/// The bytes of `/readyz`.
pub open spec fn readyz_path() -> Seq<u8> {
    seq![SLASH, 0x72u8, 0x65, 0x61, 0x64, 0x79, 0x7a]
}

/// Compares a path with a fixed byte string.
fn bytes_equal(a: &[u8], b: &[u8]) -> (res: bool)
    ensures
        res == (a@ == b@),
{
    if a.len() != b.len() {
        return false;
    }
    let mut k: usize = 0;
    while k < a.len()
        invariant
            a@.len() == b@.len(),
            k <= a@.len(),
            forall|m: int| 0 <= m < k ==> a@[m] == b@[m],
        decreases a@.len() - k,
    {
        if a[k] != b[k] {
            return false;
        }
        k = k + 1;
    }
    assert(a@ =~= b@);
    true
}

/// Tests whether `path` is the liveness probe route `/livez`.
pub fn is_livez(path: &str) -> (res: bool)
    ensures
        res == (path.spec_bytes() == livez_path()),
{
    let expected: [u8; 6] = [SLASH, 0x6c, 0x69, 0x76, 0x65, 0x7a];
    let res = bytes_equal(path.as_bytes(), expected.as_slice());
    assert(expected@ =~= livez_path());
    res
}

/// Tests whether `path` is the readiness probe route `/readyz`.
pub fn is_readyz(path: &str) -> (res: bool)
    ensures
        res == (path.spec_bytes() == readyz_path()),
{
    let expected: [u8; 7] = [SLASH, 0x72, 0x65, 0x61, 0x64, 0x79, 0x7a];
    let res = bytes_equal(path.as_bytes(), expected.as_slice());
    assert(expected@ =~= readyz_path());
    res
}

/// Tests whether `path` is one of the reserved probe routes.
pub fn is_probe_path(path: &str) -> (res: bool)
    ensures
        res == (path.spec_bytes() == livez_path() || path.spec_bytes() == readyz_path()),
{
    is_livez(path) || is_readyz(path)
}

/// What routing decides for a request.
pub enum RouteStep {
    /// Send this response.
    Respond(ResponseOutcome),
    /// Check that the content root is still a readable directory, then answer
    /// with [`readiness_response`].
    CheckReadiness,
    /// Resolve the request path under the content root, then answer with
    /// [`lookup_response`].
    LookupFile,
}

/// `o` answers a readiness probe: `200 ready` when the server is ready and
/// its content is readable, `503 not ready` otherwise.
pub open spec fn is_readiness_response(o: ResponseOutcome, head_only: bool, ready: bool, readable: bool) -> bool {
    if ready && readable {
        is_probe_response(o, head_only, STATUS_OK, "ready\n")
    } else {
        is_probe_response(o, head_only, STATUS_SERVICE_UNAVAILABLE, "not ready\n")
    }
}

/// The header that a `405` carries.
pub open spec fn allow_header() -> Seq<(&'static str, &'static str)> {
    seq![("allow", "GET, HEAD")]
}

/// What routing owes a request: see [`route_request`].
pub open spec fn route_plan(
    res: RouteStep,
    method: Method,
    p: Seq<u8>,
    status: ServerStatus,
    has_content_root: bool,
) -> bool {
    let head = method == Method::Head;
    if p == livez_path() {
        res matches RouteStep::Respond(o) && is_probe_response(o, head, STATUS_OK, "ok\n")
    } else if p == readyz_path() {
        if has_content_root {
            res is CheckReadiness
        } else {
            res matches RouteStep::Respond(o) && is_readiness_response(o, head, status.ready, true)
        }
    } else if method == Method::Other {
        res matches RouteStep::Respond(o) && is_text_response(
            o,
            STATUS_METHOD_NOT_ALLOWED,
            "method not allowed\n",
            allow_header(),
        )
    } else if status.shutting_down {
        res matches RouteStep::Respond(o) && is_text_response(o, STATUS_SERVICE_UNAVAILABLE, "not ready\n", seq![])
    } else if !has_content_root {
        res matches RouteStep::Respond(o) && if is_root_path(p) {
            is_default_page(o, head)
        } else {
            is_text_response(o, STATUS_NOT_FOUND, "not found\n", seq![])
        }
    } else {
        res is LookupFile
    }
}

/// Routes one request. Probe routes take precedence over everything and accept
/// any method: `/livez` is always `200 ok`; `/readyz` depends on readiness
/// (and, when there is a content root, on it still being readable). Other
/// routes accept only `GET` and `HEAD` (`405` with `Allow: GET, HEAD`
/// otherwise), are refused with `503` during the shutdown drain, fall back to
/// the welcome page or `404` when there is no content root, and are otherwise
/// looked up under the content root.
pub fn route_request(method: Method, path: &str, status: ServerStatus, has_content_root: bool) -> (res: RouteStep)
    ensures
        route_plan(res, method, path.spec_bytes(), status, has_content_root),

{
    let head_only = method == Method::Head;
    if is_livez(path) {
        return RouteStep::Respond(probe_response(head_only, STATUS_OK, "ok\n"));
    }
    if is_readyz(path) {
        if has_content_root {
            return RouteStep::CheckReadiness;
        }
        return RouteStep::Respond(readiness_response(head_only, status.ready, true));
    }
    if method == Method::Other {
        let allow: [(&'static str, &'static str); 1] = [("allow", "GET, HEAD")];
        let res = text_response_with_headers(STATUS_METHOD_NOT_ALLOWED, "method not allowed\n", allow.as_slice());
        assert(allow@ =~= allow_header());
        return RouteStep::Respond(res);
    }
    if status.shutting_down {
        return RouteStep::Respond(text_response(STATUS_SERVICE_UNAVAILABLE, "not ready\n"));
    }
    if !has_content_root {
        return RouteStep::Respond(fallback_default_response(path, head_only));
    }
    RouteStep::LookupFile
}

/// Answers a readiness probe from the readiness flag and whether the content
/// root (when there is one) is still a readable directory.
pub fn readiness_response(head_only: bool, ready: bool, readable: bool) -> (res: ResponseOutcome)
    ensures
        is_readiness_response(res, head_only, ready, readable),
{
    if ready && readable {
        probe_response(head_only, STATUS_OK, "ready\n")
    } else {
        probe_response(head_only, STATUS_SERVICE_UNAVAILABLE, "not ready\n")
    }
}

/// `o` answers a static-file request for `path` whose lookup ended with
/// `result`: the file when one was resolved; the welcome page when nothing was
/// found for `/`; otherwise the error's response.
pub open spec fn is_lookup_response(
    o: ResponseOutcome,
    path: Seq<u8>,
    head_only: bool,
    result: Result<ResolvedFile, ResolveError>,
) -> bool {
    match result {
        Ok(f) => is_file_response(o, spec_content_type(f.canonical_path@), f.content_length, head_only),
        Err(e) => if e == ResolveError::NotFound && is_root_path(path) {
            is_default_page(o, head_only)
        } else {
            is_text_response(o, error_status(e), error_body(e), seq![])
        },
    }
}

/// Answers a static-file request from the result of its lookup.
pub fn lookup_response(path: &str, head_only: bool, result: Result<ResolvedFile, ResolveError>) -> (res: ResponseOutcome)
    ensures
        is_lookup_response(res, path.spec_bytes(), head_only, result),
{
    match result {
        Ok(file) => file_response(file.canonical_path.as_slice(), file.content_length, head_only),
        Err(ResolveError::NotFound) => if path_is_root(path) {
            default_index_outcome(head_only)
        } else {
            map_file_error(ResolveError::NotFound)
        },
        Err(error) => map_file_error(error),
    }
}

} // verus!
