//! Properties that relate several of the library's functions, proved from
//! their contracts.
use vstd::prelude::*;
use vstd::utf8::{
    decode_utf8, valid_utf8, encode_scalar, encode_utf8, encode_utf8_decode_utf8, encode_utf8_valid_utf8, has_width_1_encoding,
};

use crate::lookup::ResolvedFile;
use crate::metrics::finish_step;
use crate::bindings::mime_essence_for_extension;
use crate::path::{lemma_extension_of_file, path_extension};
use crate::reply::{spec_content_type, ReplyBody, ResponseOutcome, STATUS_OK, STATUS_SERVICE_UNAVAILABLE};
use crate::lookup::join_path;
use crate::path::{
    body_components, has_parent_segment, leading_components, lemma_contains_concat,
    lemma_join_components, lemma_parent_component_iff_segment, parent_dir, parent_segment_at,
    path_components, relative_path_check, spec_path_starts_with,
};
use crate::request_path::{
    decoded_text, index_html, percent_decode, spec_candidate_paths, spec_hex_value, ResolveError, DOT, NUL,
    PERCENT, SLASH,
};
use crate::routing::{
    is_lookup_response, is_readiness_response, livez_path, readyz_path, route_plan, Method,
    RouteStep, ServerStatus,
};
use crate::server::{
    accept_step, connection_step, AcceptAction, AcceptEvent, ConnectionAction, ConnectionEvent,
    GracefulReason,
};

verus! {

/// Two responses carry the same status and headers, and report the same body
/// size.
pub open spec fn same_headers(a: ResponseOutcome, b: ResponseOutcome) -> bool {
    &&& a.status == b.status
    &&& a.content_type@ == b.content_type@
    &&& a.content_length == b.content_length
    &&& a.extra_headers@ == b.extra_headers@
    &&& a.body_size == b.body_size
}

/// `head` answers `HEAD` as `get` answers `GET`: the same status, headers and
/// size, and either no body or the same (plain-text) body.
pub open spec fn answers_head_like_get(head: ResponseOutcome, get: ResponseOutcome) -> bool {
    &&& same_headers(head, get)
    &&& (head.body == ReplyBody::Empty || head.body == get.body)
    &&& (get.body == ReplyBody::File || get.body == ReplyBody::DefaultPage) ==> head.body == ReplyBody::Empty
}

/// `HEAD` is routed like `GET`, and where routing answers at once, it answers
/// with the same headers and no file or page body.
pub proof fn law_head_routes_like_get(
    head: RouteStep,
    get: RouteStep,
    path: Seq<u8>,
    status: ServerStatus,
    has_content_root: bool,
)
    requires
        route_plan(head, Method::Head, path, status, has_content_root),
        route_plan(get, Method::Get, path, status, has_content_root),
    ensures
        head is Respond <==> get is Respond,
        head is CheckReadiness <==> get is CheckReadiness,
        head is LookupFile <==> get is LookupFile,
        (head is Respond && get is Respond) ==> same_headers(head->Respond_0, get->Respond_0) && (
        head->Respond_0.body == ReplyBody::Empty || head->Respond_0.body == get->Respond_0.body),
{
}

/// A readiness probe answers `HEAD` like `GET`, without the body.
pub proof fn law_head_readiness_like_get(head: ResponseOutcome, get: ResponseOutcome, ready: bool, readable: bool)
    requires
        is_readiness_response(head, true, ready, readable),
        is_readiness_response(get, false, ready, readable),
    ensures
        answers_head_like_get(head, get),
        head.body == ReplyBody::Empty,
{
}

/// A static-file request answers `HEAD` like `GET`: same status and headers
/// (including `Content-Type` and `Content-Length`), and no file or page body.
pub proof fn law_head_lookup_like_get(
    head: ResponseOutcome,
    get: ResponseOutcome,
    path: Seq<u8>,
    result: Result<ResolvedFile, ResolveError>,
)
    requires
        is_lookup_response(head, path, true, result),
        is_lookup_response(get, path, false, result),
    ensures
        answers_head_like_get(head, get),
{
}

/// Every response the server sends reports as its body size the
/// `Content-Length` it sends, so the response-size metric, read from that
/// header, matches what was announced: for responses routing gives at once,
/// readiness answers and static-file answers alike.
pub proof fn law_body_size_is_content_length(
    step: RouteStep,
    method: Method,
    path: Seq<u8>,
    status: ServerStatus,
    has_content_root: bool,
    readiness: ResponseOutcome,
    ready: bool,
    readable: bool,
    lookup: ResponseOutcome,
    result: Result<ResolvedFile, ResolveError>,
)
    requires
        route_plan(step, method, path, status, has_content_root),
        is_readiness_response(readiness, method == Method::Head, ready, readable),
        is_lookup_response(lookup, path, method == Method::Head, result),
    ensures
        step matches RouteStep::Respond(o) ==> o.body_size == o.content_length,
        readiness.body_size == readiness.content_length,
        lookup.body_size == lookup.content_length,
{
}

/// During the shutdown drain (not ready, shutting down), liveness stays
/// `200`, readiness is `503` or waits on the readiness check (which then
/// answers `503`, see [`law_readiness_fails_when_not_ready`]), every other
/// request is refused (`503`, or `405` for unsupported methods), and no file is
/// served.
pub proof fn law_drain_refuses_all_but_liveness(
    step: RouteStep,
    method: Method,
    path: Seq<u8>,
    status: ServerStatus,
    has_content_root: bool,
)
    requires
        route_plan(step, method, path, status, has_content_root),
        !status.ready,
        status.shutting_down,
    ensures
        path == livez_path() ==> (step matches RouteStep::Respond(o) && o.status == STATUS_OK),
        path == readyz_path() ==> (step is CheckReadiness || (step matches RouteStep::Respond(o)
            && o.status == STATUS_SERVICE_UNAVAILABLE)),
        !(step is LookupFile),
        path != livez_path() && path != readyz_path() && method != Method::Other ==> (
        step matches RouteStep::Respond(o) && o.status == STATUS_SERVICE_UNAVAILABLE),
{
}

/// A server that is not ready answers its readiness probe with `503`,
/// whatever the content root's state.
pub proof fn law_readiness_fails_when_not_ready(o: ResponseOutcome, head_only: bool, readable: bool)
    requires
        is_readiness_response(o, head_only, false, readable),
    ensures
        o.status == STATUS_SERVICE_UNAVAILABLE,
{
}

/// The accept loop keeps "draining implies not ready and shutting down", never
/// leaves the drain once it began (readiness does not come back), and stops
/// accepting only after readiness has flipped.
pub proof fn law_accepts_stop_only_after_readiness_flips(draining: bool, status: ServerStatus, event: AcceptEvent)
    requires
        draining ==> !status.ready && status.shutting_down,
    ensures
        ({
            let (d, s, a) = accept_step(draining, status, event);
            &&& draining ==> d
            &&& d ==> !s.ready && s.shutting_down
            &&& a == AcceptAction::StopAccepting ==> draining && !s.ready && s.shutting_down
        }),
{
}

/// A failed shutdown signal shuts the server down exactly as a received one
/// does; only the action's note of the failure differs.
pub proof fn law_signal_failure_shuts_down_like_success(draining: bool, status: ServerStatus)
    ensures
        accept_step(draining, status, AcceptEvent::ShutdownSignalFailed).0 == accept_step(
            draining,
            status,
            AcceptEvent::ShutdownRequested,
        ).0,
        accept_step(draining, status, AcceptEvent::ShutdownSignalFailed).1 == accept_step(
            draining,
            status,
            AcceptEvent::ShutdownRequested,
        ).1,
{
}

/// An idle connection is asked to close gracefully when its deadline first
/// passes, and dropped when the graceful-close deadline passes too.
pub proof fn law_idle_connection_closes_after_grace()
    ensures
        ({
            let (c1, a1) = connection_step(false, ConnectionEvent::DeadlineElapsed);
            let (c2, a2) = connection_step(c1, ConnectionEvent::DeadlineElapsed);
            &&& a1 == ConnectionAction::BeginGracefulClose(GracefulReason::IdleTimeout)
            &&& a2 == (ConnectionAction::Close { timed_out: true })
            &&& c2
        }),
{
}

/// Once a connection is closing, it stays closing, and nothing but the end of
/// the connection or its deadline acts on it: activity no longer extends it.
pub proof fn law_closing_is_final(event: ConnectionEvent)
    ensures
        connection_step(true, event).0,
        connection_step(true, event).1 == ConnectionAction::Wait || event == ConnectionEvent::Finished
            || event == ConnectionEvent::DeadlineElapsed,
{
}

/// Finishing an in-flight request twice decrements the gauge exactly once.
pub proof fn law_finish_decrements_once()
    ensures
        ({
            let (f1, d1) = finish_step(false);
            let (f2, d2) = finish_step(f1);
            d1 && !d2 && f2
        }),
{
}

/// Bytes other than `%` and NUL stand for themselves: a path without them
/// percent-decodes to itself.
pub proof fn law_plain_path_decodes_to_itself(path: Seq<u8>)
    requires
        forall|i: int| 0 <= i < path.len() ==> path[i] != PERCENT && path[i] != NUL,
    ensures
        percent_decode(path) == Ok::<Seq<u8>, ResolveError>(path),
    decreases path.len(),
{
    if path.len() > 0 {
        law_plain_path_decodes_to_itself(path.skip(1));
        assert(seq![path[0]] + path.skip(1) =~= path);
    } else {
        assert(path =~= Seq::<u8>::empty());
    }
}

/// The hex digit for a value below 16, its letters upper-case when `upper`
/// and lower-case otherwise.
pub open spec fn hex_digit(v: u8, upper: bool) -> u8 {
    if v < 10 {
        (0x30 + v) as u8
    } else if upper {
        (0x41 + v - 10) as u8
    } else {
        (0x61 + v - 10) as u8
    }
}

/// A percent escape `%XY` of any byte, in either letter case, decodes to that
/// byte, except that an escaped `/` or NUL is refused.
pub proof fn law_escape_decodes_to_its_byte(byte: u8, upper: bool)
    ensures
        ({
            let escape = seq![PERCENT, hex_digit(byte / 16, upper), hex_digit(byte % 16, upper)];
            percent_decode(escape) == if byte == SLASH {
                Err::<Seq<u8>, ResolveError>(ResolveError::EncodedSlash)
            } else if byte == NUL {
                Err::<Seq<u8>, ResolveError>(ResolveError::NullByte)
            } else {
                Ok::<Seq<u8>, ResolveError>(seq![byte])
            }
        }),
{
    let escape = seq![PERCENT, hex_digit(byte / 16, upper), hex_digit(byte % 16, upper)];
    assert(spec_hex_value(hex_digit(byte / 16, upper)) == Some((byte / 16) as u8));
    assert(spec_hex_value(hex_digit(byte % 16, upper)) == Some((byte % 16) as u8));
    assert(escape.skip(3) =~= Seq::<u8>::empty());
    assert(percent_decode(escape.skip(3)) == Ok::<Seq<u8>, ResolveError>(Seq::<u8>::empty()));
    assert(((byte / 16) as u8 * 16 + (byte % 16) as u8) as u8 == byte);
    assert(escape.len() == 3 && escape[0] == PERCENT);
    assert(escape[1] == hex_digit(byte / 16, upper) && escape[2] == hex_digit(byte % 16, upper));
    assert(seq![byte] + Seq::<u8>::empty() =~= seq![byte]);
}

/// `bytes` written as a request path: each `/` kept as it is, every other
/// byte as a `%XY` escape, with upper-case hex letters when `upper` and
/// lower-case ones otherwise.
pub open spec fn percent_encode(bytes: Seq<u8>, upper: bool) -> Seq<u8>
    decreases bytes.len(),
{
    if bytes.len() == 0 {
        seq![]
    } else if bytes[0] == SLASH {
        seq![SLASH] + percent_encode(bytes.skip(1), upper)
    } else {
        seq![PERCENT, hex_digit(bytes[0] / 16, upper), hex_digit(bytes[0] % 16, upper)] + percent_encode(bytes.skip(1), upper)
    }
}

/// Escaping every byte of a path but its slashes, in either letter case, and
/// decoding gives the bytes back, as long as none of them is NUL.
pub proof fn law_encoded_bytes_decode_back(bytes: Seq<u8>, upper: bool)
    requires
        forall|i: int| 0 <= i < bytes.len() ==> bytes[i] != NUL,
    ensures
        percent_decode(percent_encode(bytes, upper)) == Ok::<Seq<u8>, ResolveError>(bytes),
    decreases bytes.len(),
{
    if bytes.len() == 0 {
        assert(bytes =~= Seq::<u8>::empty());
    } else {
        let b = bytes[0];
        let rest = bytes.skip(1);
        let encoded = percent_encode(bytes, upper);
        law_encoded_bytes_decode_back(rest, upper);
        if b == SLASH {
            assert(encoded[0] == SLASH);
            assert(encoded.skip(1) =~= percent_encode(rest, upper));
        } else {
            assert(spec_hex_value(hex_digit(b / 16, upper)) == Some((b / 16) as u8));
            assert(spec_hex_value(hex_digit(b % 16, upper)) == Some((b % 16) as u8));
            assert(((b / 16) as u8 * 16 + (b % 16) as u8) as u8 == b);
            assert(encoded[0] == PERCENT);
            assert(encoded[1] == hex_digit(b / 16, upper) && encoded[2] == hex_digit(b % 16, upper));
            assert(encoded.skip(3) =~= percent_encode(rest, upper));
        }
        assert(seq![b] + rest =~= bytes);
    }
}

/// Appending a tail that neither starts with a dot nor holds two adjacent
/// dots to a path without `..` segments creates none.
proof fn lemma_no_parent_after(rel: Seq<u8>, tail: Seq<u8>)
    requires
        !has_parent_segment(rel),
        tail.len() > 0,
        tail[0] != DOT,
        forall|j: int| 0 <= j < tail.len() - 1 ==> !(tail[j] == DOT && #[trigger] tail[j + 1] == DOT),
    ensures
        !has_parent_segment(rel + tail),
{
    let q = rel + tail;
    if has_parent_segment(q) {
        let k = choose|k: int| #[trigger] parent_segment_at(q, k);
        if k + 2 <= rel.len() {
            if k + 2 < rel.len() {
                assert(q[k + 2] == rel[k + 2]);
            }
            if k > 0 {
                assert(q[k - 1] == rel[k - 1]);
            }
            assert(parent_segment_at(rel, k));
        } else if k + 1 == rel.len() {
            assert(q[k + 1] == tail[0]);
        } else {
            assert(q[k] == tail[k - rel.len()]);
            assert(q[k + 1] == tail[k - rel.len() + 1]);
        }
    }
}

/// Every candidate a request path yields is a non-empty relative path with no
/// `..` component: percent-decoding cannot smuggle a traversal past the check,
/// and the `index.html` suffix adds none.
pub proof fn law_candidates_never_climb(req: Seq<u8>)
    ensures
        spec_candidate_paths(req) matches Ok(c) ==> forall|i: int|
            0 <= i < c.len() ==> {
                &&& (#[trigger] c[i]).len() > 0
                &&& c[i][0] != SLASH
                &&& !path_components(c[i]).contains(parent_dir())
            },
{
    if let Ok(c) = spec_candidate_paths(req) {
        let d = percent_decode(req)->Ok_0;
        let rel = d.skip(1);
        assert(relative_path_check(rel) is Ok);
        lemma_parent_component_iff_segment(rel);
        let index = index_html();
        let slash_index = seq![SLASH] + index_html();
        assert(forall|j: int| 0 <= j < index.len() - 1 ==> !(index[j] == DOT && #[trigger] index[j + 1] == DOT));
        assert(forall|j: int| 0 <= j < slash_index.len() - 1 ==> !(slash_index[j] == DOT && #[trigger] slash_index[j + 1] == DOT));
        assert forall|i: int| 0 <= i < c.len() implies {
            &&& (#[trigger] c[i]).len() > 0
            &&& c[i][0] != SLASH
            &&& !path_components(c[i]).contains(parent_dir())
        } by {
            if rel.len() == 0 {
                assert(c[i] == index);
                assert(Seq::<u8>::empty() + index =~= index);
                lemma_no_parent_after(Seq::<u8>::empty(), index);
                lemma_parent_component_iff_segment(index);
            } else if rel.last() == SLASH {
                assert(c[i] == rel + index);
                lemma_no_parent_after(rel, index);
                lemma_parent_component_iff_segment(rel + index);
            } else if i == 0 {
                assert(c[i] == rel);
            } else {
                assert(c[i] == rel + seq![SLASH] + index);
                assert(rel + seq![SLASH] + index =~= rel + slash_index);
                lemma_no_parent_after(rel, slash_index);
                lemma_parent_component_iff_segment(rel + slash_index);
            }
        }
    }
}

/// Every path a lookup asks to canonicalize (the content root joined with a
/// candidate) consists of the content root's components followed only by
/// components of the request, none of which is `..`: before any symlink is
/// resolved, the lookup never names a path outside the content root.
pub proof fn law_lookup_paths_stay_under_root(root: Seq<u8>, req: Seq<u8>)
    requires
        root.len() > 0,
    ensures
        spec_candidate_paths(req) matches Ok(c) ==> forall|i: int|
            #![trigger c[i]]
            0 <= i < c.len() ==> {
                &&& spec_path_starts_with(join_path(root, c[i]), root)
                &&& !path_components(join_path(root, c[i])).skip(
                    path_components(root).len() as int,
                ).contains(parent_dir())
            },
{
    if let Ok(c) = spec_candidate_paths(req) {
        law_candidates_never_climb(req);
        assert forall|i: int| #![trigger c[i]] 0 <= i < c.len() implies {
            &&& spec_path_starts_with(join_path(root, c[i]), root)
            &&& !path_components(join_path(root, c[i])).skip(
                path_components(root).len() as int,
            ).contains(parent_dir())
        } by {
            let rel = c[i];
            let base = path_components(root);
            let joined = path_components(join_path(root, rel));
            lemma_join_components(root, rel);
            assert(joined.take(base.len() as int) =~= base);
            assert(joined.skip(base.len() as int) =~= body_components(rel, 0, 0));
            lemma_contains_concat(leading_components(rel), body_components(rel, 0, 0), parent_dir());
        }
    }
}

/// A request path yields one or two candidates, and the last always names an
/// `index.html`: the directory's own when there are two, the first candidate
/// being the named file itself. No candidate holds a NUL byte.
pub proof fn law_candidates_shape(req: Seq<u8>)
    ensures
        spec_candidate_paths(req) matches Ok(c) ==> {
            &&& 1 <= c.len() <= 2
            &&& c.last().len() >= index_html().len()
            &&& c.last().skip(c.last().len() - index_html().len()) == index_html()
            &&& c.len() == 2 ==> c[1] == c[0] + seq![SLASH] + index_html()
            &&& forall|i: int, k: int| 0 <= i < c.len() && 0 <= k < c[i].len() ==> #[trigger] c[i][k] != NUL
        },
{
    if let Ok(c) = spec_candidate_paths(req) {
        let d = percent_decode(req)->Ok_0;
        let rel = d.skip(1);
        let index = index_html();
        assert(forall|k: int| 0 <= k < d.len() ==> #[trigger] d[k] != NUL) by {
            law_decoding_shape(req);
        }
        assert(forall|k: int| 0 <= k < rel.len() ==> rel[k] == d[k + 1]);
        assert(forall|k: int| 0 <= k < index.len() ==> index[k] != NUL);
        if rel.len() == 0 {
            assert(c.last().skip(0) =~= index);
        } else if rel.last() == SLASH {
            assert(c.last().skip(c.last().len() - index.len()) =~= index);
            assert forall|i: int, k: int| 0 <= i < c.len() && 0 <= k < c[i].len() implies #[trigger] c[i][k] != NUL by {
                if k < rel.len() {
                    assert(c[i][k] == rel[k]);
                } else {
                    assert(c[i][k] == index[k - rel.len()]);
                }
            }
        } else {
            assert(c.last().skip(c.last().len() - index.len()) =~= index);
            assert forall|i: int, k: int| 0 <= i < c.len() && 0 <= k < c[i].len() implies #[trigger] c[i][k] != NUL by {
                if k < rel.len() {
                    assert(c[i][k] == rel[k]);
                } else if k > rel.len() {
                    assert(c[i][k] == index[k - rel.len() - 1]);
                }
            }
        }
    }
}

/// How many bytes of `s` equal `b`.
pub open spec fn count_byte(s: Seq<u8>, b: u8) -> nat
    decreases s.len(),
{
    if s.len() == 0 {
        0
    } else {
        (if s[0] == b { 1nat } else { 0nat }) + count_byte(s.skip(1), b)
    }
}

/// Counting over the first three bytes one by one.
proof fn lemma_count_three(path: Seq<u8>, b: u8)
    requires
        path.len() >= 3,
    ensures
        count_byte(path, b) == (if path[0] == b { 1nat } else { 0nat }) + (if path[1] == b { 1nat } else { 0nat })
            + (if path[2] == b { 1nat } else { 0nat }) + count_byte(path.skip(3), b),
{
    let p1 = path.skip(1);
    let p2 = p1.skip(1);
    assert(p2.skip(1) =~= path.skip(3));
    assert(p1[0] == path[1]);
    assert(p2[0] == path[2]);
    assert(count_byte(p2, b) == (if p2[0] == b { 1nat } else { 0nat }) + count_byte(p2.skip(1), b));
    assert(count_byte(p1, b) == (if p1[0] == b { 1nat } else { 0nat }) + count_byte(p2, b));
}

/// The byte that the escape starting at index `i` of `path` stands for.
pub open spec fn escape_value(path: Seq<u8>, i: int) -> u8 {
    (spec_hex_value(path[i + 1])->Some_0 * 16 + spec_hex_value(path[i + 2])->Some_0) as u8
}

/// `path` holds no NUL byte, and every `%` in it begins an escape of two hex
/// digits that stands for neither `/` nor NUL.
pub open spec fn well_escaped(path: Seq<u8>) -> bool {
    &&& forall|i: int| 0 <= i < path.len() ==> #[trigger] path[i] != NUL
    &&& forall|i: int|
        #![trigger path[i]]
        0 <= i < path.len() && path[i] == PERCENT ==> {
            &&& i + 2 < path.len()
            &&& spec_hex_value(path[i + 1]) is Some
            &&& spec_hex_value(path[i + 2]) is Some
            &&& escape_value(path, i) != SLASH
            &&& escape_value(path, i) != NUL
        }
}

/// Percent-decoding succeeds exactly on well-escaped paths. A successful
/// decoding holds no NUL byte, keeps every `/` (an escaped `/` is refused),
/// and is two bytes shorter than the path for each `%` in it. So
/// `decode_percent_path` fails with `InvalidUtf8` only on a well-escaped path.
pub proof fn law_decoding_shape(path: Seq<u8>)
    ensures
        percent_decode(path) is Ok <==> well_escaped(path),
        percent_decode(path) matches Ok(d) ==> {
            &&& forall|k: int| 0 <= k < d.len() ==> #[trigger] d[k] != NUL
            &&& count_byte(d, SLASH) == count_byte(path, SLASH)
            &&& d.len() + 2 * count_byte(path, PERCENT) == path.len()
        },
        decoded_text(path) == Err::<Seq<char>, ResolveError>(ResolveError::InvalidUtf8) ==> well_escaped(path),
    decreases path.len(),
{
    if path.len() == 0 {
        return;
    }
    if path[0] == PERCENT {
        let rest = path.skip(3);
        if path.len() >= 3 {
            law_decoding_shape(rest);
            assert forall|i: int| 0 <= i < rest.len() implies #[trigger] rest[i] == path[i + 3] by {}
            let h = spec_hex_value(path[1]);
            let l = spec_hex_value(path[2]);
            if h is Some && l is Some {
                // Hex digits are neither `%`, `/` nor NUL.
                assert(path[1] != PERCENT && path[2] != PERCENT);
                assert(path[1] != NUL && path[2] != NUL);
                assert(path[1] != SLASH && path[2] != SLASH);
                lemma_count_three(path, PERCENT);
                lemma_count_three(path, SLASH);
                assert(count_byte(path, PERCENT) == 1 + count_byte(rest, PERCENT));
                assert(count_byte(path, SLASH) == count_byte(rest, SLASH));
                if well_escaped(path) {
                    assert(escape_value(path, 0) != SLASH && escape_value(path, 0) != NUL);
                    assert(well_escaped(rest)) by {
                        assert forall|i: int| 0 <= i < rest.len() implies #[trigger] rest[i] != NUL by {
                            assert(path[i + 3] != NUL);
                        }
                        assert forall|i: int| #![trigger rest[i]] 0 <= i < rest.len() && rest[i] == PERCENT implies {
                            &&& i + 2 < rest.len()
                            &&& spec_hex_value(rest[i + 1]) is Some
                            &&& spec_hex_value(rest[i + 2]) is Some
                            &&& escape_value(rest, i) != SLASH
                            &&& escape_value(rest, i) != NUL
                        } by {
                            assert(path[i + 3] == PERCENT);
                            assert(rest[i + 1] == path[i + 4] && rest[i + 2] == path[i + 5]);
                        }
                    }
                }
                if percent_decode(path) is Ok {
                    let d = percent_decode(path)->Ok_0;
                    let byte = (h->Some_0 * 16 + l->Some_0) as u8;
                    let r = percent_decode(rest)->Ok_0;
                    assert(d == seq![byte] + r);
                    assert(d.skip(1) =~= r);
                    assert(d[0] == byte);
                    assert(forall|k: int| 0 <= k < r.len() ==> #[trigger] d[k + 1] == r[k]);
                    assert forall|k: int| 0 <= k < d.len() implies #[trigger] d[k] != NUL by {
                        if k > 0 {
                            assert(d[k] == r[k - 1]);
                        }
                    }
                    assert(well_escaped(path)) by {
                        assert forall|i: int| 0 <= i < path.len() implies #[trigger] path[i] != NUL by {
                            if i >= 3 {
                                assert(rest[i - 3] != NUL);
                            }
                        }
                        assert forall|i: int| #![trigger path[i]] 0 <= i < path.len() && path[i] == PERCENT implies {
                            &&& i + 2 < path.len()
                            &&& spec_hex_value(path[i + 1]) is Some
                            &&& spec_hex_value(path[i + 2]) is Some
                            &&& escape_value(path, i) != SLASH
                            &&& escape_value(path, i) != NUL
                        } by {
                            if i >= 3 {
                                assert(rest[i - 3] == PERCENT);
                                assert(rest[i - 3 + 1] == path[i + 1] && rest[i - 3 + 2] == path[i + 2]);
                            }
                        }
                    }
                }
            }
        }
    } else {
        let rest = path.skip(1);
        law_decoding_shape(rest);
        assert forall|i: int| 0 <= i < rest.len() implies #[trigger] rest[i] == path[i + 1] by {}
        if well_escaped(path) {
            assert(well_escaped(rest)) by {
                assert forall|i: int| 0 <= i < rest.len() implies #[trigger] rest[i] != NUL by {
                    assert(path[i + 1] != NUL);
                }
                assert forall|i: int| #![trigger rest[i]] 0 <= i < rest.len() && rest[i] == PERCENT implies {
                    &&& i + 2 < rest.len()
                    &&& spec_hex_value(rest[i + 1]) is Some
                    &&& spec_hex_value(rest[i + 2]) is Some
                    &&& escape_value(rest, i) != SLASH
                    &&& escape_value(rest, i) != NUL
                } by {
                    assert(path[i + 1] == PERCENT);
                    assert(rest[i + 1] == path[i + 2] && rest[i + 2] == path[i + 3]);
                }
            }
            assert(path[0] != NUL);
        }
        if percent_decode(path) is Ok {
            let d = percent_decode(path)->Ok_0;
            let r = percent_decode(rest)->Ok_0;
            assert(d == seq![path[0]] + r);
            assert(d.skip(1) =~= r);
            assert forall|k: int| 0 <= k < d.len() implies #[trigger] d[k] != NUL by {
                if k > 0 {
                    assert(d[k] == r[k - 1]);
                }
            }
            assert(count_byte(d, SLASH) == (if path[0] == SLASH { 1nat } else { 0nat }) + count_byte(r, SLASH));
            assert(well_escaped(path)) by {
                assert forall|i: int| 0 <= i < path.len() implies #[trigger] path[i] != NUL by {
                    if i >= 1 {
                        assert(rest[i - 1] != NUL);
                    }
                }
                assert forall|i: int| #![trigger path[i]] 0 <= i < path.len() && path[i] == PERCENT implies {
                    &&& i + 2 < path.len()
                    &&& spec_hex_value(path[i + 1]) is Some
                    &&& spec_hex_value(path[i + 2]) is Some
                    &&& escape_value(path, i) != SLASH
                    &&& escape_value(path, i) != NUL
                } by {
                    assert(i >= 1);
                    assert(rest[i - 1] == PERCENT);
                    assert(rest[i - 1 + 1] == path[i + 1] && rest[i - 1 + 2] == path[i + 2]);
                }
            }
        }
    }
}

/// No byte of a character's UTF-8 encoding is `%` or NUL unless the
/// character is that one byte: the encoding of any other character either is
/// the character itself or is made of bytes of 0x80 and above.
proof fn lemma_scalar_bytes(c: char)
    ensures
        forall|k: int|
            0 <= k < encode_scalar(c as u32).len() ==> {
                &&& #[trigger] encode_scalar(c as u32)[k] == PERCENT ==> c == '%'
                &&& encode_scalar(c as u32)[k] == NUL ==> c == '\0'
            },
{
    let v = c as u32;
    assert(forall|b: u8| #[trigger] (0x80u8 | b) >= 0x80u8) by (bit_vector);
    assert(forall|b: u8| #[trigger] (0xC0u8 | b) >= 0x80u8) by (bit_vector);
    assert(forall|b: u8| #[trigger] (0xE0u8 | b) >= 0x80u8) by (bit_vector);
    assert(forall|b: u8| #[trigger] (0xF0u8 | b) >= 0x80u8) by (bit_vector);
    if has_width_1_encoding(v) {
        assert(v <= 0x7f ==> (v & 0x7f) as u8 == v) by (bit_vector);
        assert(encode_scalar(v) == seq![v as u8]);
        assert(('%' as u32) == 0x25u32);
        assert(('\0' as u32) == 0u32);
    }
}

/// Text without `%` and NUL characters has UTF-8 bytes without `%` and NUL.
proof fn lemma_plain_text_bytes(text: Seq<char>)
    requires
        forall|i: int| 0 <= i < text.len() ==> text[i] != '%' && text[i] != '\0',
    ensures
        forall|k: int| 0 <= k < encode_utf8(text).len() ==> #[trigger] encode_utf8(text)[k] != PERCENT
            && encode_utf8(text)[k] != NUL,
    decreases text.len(),
{
    if text.len() > 0 {
        let head = encode_scalar(text[0] as u32);
        let tail = encode_utf8(text.drop_first());
        lemma_scalar_bytes(text[0]);
        lemma_plain_text_bytes(text.drop_first());
        assert(encode_utf8(text) == head + tail);
        assert forall|k: int| 0 <= k < encode_utf8(text).len() implies #[trigger] encode_utf8(text)[k] != PERCENT
            && encode_utf8(text)[k] != NUL by {
            if k < head.len() {
                assert(encode_utf8(text)[k] == head[k]);
            } else {
                assert(encode_utf8(text)[k] == tail[k - head.len()]);
            }
        }
    }
}

/// A text without `%` and NUL characters percent-decodes to itself: what
/// `decode_percent_path` returns for it is the text unchanged.
pub proof fn law_plain_text_decodes_to_itself(text: Seq<char>)
    requires
        forall|i: int| 0 <= i < text.len() ==> text[i] != '%' && text[i] != '\0',
    ensures
        decoded_text(encode_utf8(text)) == Ok::<Seq<char>, ResolveError>(text),
{
    lemma_plain_text_bytes(text);
    law_plain_path_decodes_to_itself(encode_utf8(text));
    encode_utf8_valid_utf8(text);
    encode_utf8_decode_utf8(text);
}

/// A connection whose HTTP exchange has finished is closed, normally (not as
/// a timeout), whatever state it was in.
pub proof fn law_finished_connection_closes(closing: bool)
    ensures
        connection_step(closing, ConnectionEvent::Finished).1 == (ConnectionAction::Close { timed_out: false }),
{
}

/// What each event does to a connection that is still serving: its deadline
/// starts a graceful close for idleness, a shutdown (or a lost shutdown
/// channel) starts a graceful close for that reason, a shutdown flag that is
/// still off changes nothing, and traffic restarts the idle deadline. A
/// closing connection is dropped as timed out when its deadline passes.
pub proof fn law_connection_events(closing: bool)
    ensures
        connection_step(false, ConnectionEvent::DeadlineElapsed)
            == (true, ConnectionAction::BeginGracefulClose(GracefulReason::IdleTimeout)),
        connection_step(true, ConnectionEvent::DeadlineElapsed)
            == (true, ConnectionAction::Close { timed_out: true }),
        connection_step(false, ConnectionEvent::ShutdownChanged { shutting_down: true })
            == (true, ConnectionAction::BeginGracefulClose(GracefulReason::ServerShutdown)),
        connection_step(closing, ConnectionEvent::ShutdownChanged { shutting_down: false })
            == (closing, ConnectionAction::Wait),
        connection_step(false, ConnectionEvent::ShutdownChannelClosed)
            == (true, ConnectionAction::BeginGracefulClose(GracefulReason::ChannelClosed)),
        connection_step(false, ConnectionEvent::Activity) == (false, ConnectionAction::ResetIdleDeadline),
{
}

/// Only a shutdown signal changes the accept loop: every other event leaves
/// the drain state and the readiness flags as they were. A failed accept is
/// ignored (the loop keeps accepting) and an accepted connection is served,
/// draining or not.
pub proof fn law_only_signals_change_the_accept_loop(draining: bool, status: ServerStatus, event: AcceptEvent)
    ensures
        event != AcceptEvent::ShutdownRequested && event != AcceptEvent::ShutdownSignalFailed ==> {
            &&& accept_step(draining, status, event).0 == draining
            &&& accept_step(draining, status, event).1 == status
        },
        accept_step(draining, status, AcceptEvent::AcceptFailed) == (draining, status, AcceptAction::KeepAccepting),
        accept_step(draining, status, AcceptEvent::Accepted) == (draining, status, AcceptAction::ServeConnection),
        accept_step(draining, status, event).2 matches AcceptAction::BeginDrain { signal_failed } ==> {
            &&& !draining
            &&& (event == AcceptEvent::ShutdownRequested && !signal_failed
                || event == AcceptEvent::ShutdownSignalFailed && signal_failed)
        },
{
}

/// A shutdown signal received while serving starts the drain: the server is
/// no longer ready, refuses non-probe requests, and keeps accepting until the
/// drain window ends, which then stops accepting. Outside the drain the end
/// of a drain window changes nothing.
pub proof fn law_signal_starts_the_drain(status: ServerStatus, failed: bool)
    ensures
        ({
            let event = if failed { AcceptEvent::ShutdownSignalFailed } else { AcceptEvent::ShutdownRequested };
            let (d, s, a) = accept_step(false, status, event);
            &&& d && !s.ready && s.shutting_down
            &&& a == (AcceptAction::BeginDrain { signal_failed: failed })
            &&& accept_step(d, s, AcceptEvent::DrainWindowElapsed).2 == AcceptAction::StopAccepting
        }),
        accept_step(false, status, AcceptEvent::DrainWindowElapsed) == (false, status, AcceptAction::KeepAccepting),
{
}

/// A method other than `GET` and `HEAD` is answered `405 method not allowed`
/// with `Allow: GET, HEAD` on every route but the two probes: with or without
/// a content root, ready, draining or not.
pub proof fn law_unsupported_methods_get_405(
    step: RouteStep,
    path: Seq<u8>,
    status: ServerStatus,
    has_content_root: bool,
)
    requires
        route_plan(step, Method::Other, path, status, has_content_root),
        path != livez_path(),
        path != readyz_path(),
    ensures
        step matches RouteStep::Respond(o) && {
            &&& o.status == 405
            &&& o.extra_headers@ == seq![("allow", "GET, HEAD")]
            &&& o.body == ReplyBody::Text("method not allowed\n")
            &&& o.content_type@ == "text/plain; charset=utf-8"@
        },
{
}

/// How a `GET` or `HEAD` outside the probes is routed: refused with `503`
/// during the shutdown drain; otherwise looked up under the content root when
/// there is one; without one, `/` gets the welcome page and any other path
/// `404 not found`. `/livez` answers `200 ok` for every method and state.
pub proof fn law_route_table(
    step: RouteStep,
    method: Method,
    path: Seq<u8>,
    status: ServerStatus,
    has_content_root: bool,
)
    requires
        route_plan(step, method, path, status, has_content_root),
    ensures
        path == livez_path() ==> (step matches RouteStep::Respond(o) && o.status == 200
            && o.body == (if method == Method::Head { ReplyBody::Empty } else { ReplyBody::Text("ok\n") })),
        path == readyz_path() && has_content_root ==> step is CheckReadiness,
        path == readyz_path() && !has_content_root ==> (step matches RouteStep::Respond(o) && o.status == (
        if status.ready {
            200u16
        } else {
            503u16
        })),
        path != livez_path() && path != readyz_path() && method != Method::Other ==> {
            &&& status.shutting_down ==> (step matches RouteStep::Respond(o) && o.status == 503)
            &&& !status.shutting_down && has_content_root ==> step is LookupFile
            &&& !status.shutting_down && !has_content_root && path == seq![SLASH] ==> (step matches RouteStep::Respond(o)
                && o.status == 200 && o.content_type@ == "text/html; charset=utf-8"@)
            &&& !status.shutting_down && !has_content_root && path != seq![SLASH] ==> (step matches RouteStep::Respond(o)
                && o.status == 404 && o.body == ReplyBody::Text("not found\n"))
        },
{
}

/// How a static-file request is answered from its lookup: a resolved file
/// with `200`, its length and its guessed type; nothing found for `/` with
/// the welcome page; nothing found for any other path with `404 not found`;
/// an unsafe or malformed path with `400`; an I/O failure with `500`. The
/// welcome page answers no failed lookup but that of `/`.
pub proof fn law_lookup_answers(
    o: ResponseOutcome,
    path: Seq<u8>,
    head_only: bool,
    result: Result<ResolvedFile, ResolveError>,
)
    requires
        is_lookup_response(o, path, head_only, result),
    ensures
        result matches Ok(f) ==> {
            &&& o.status == 200
            &&& o.content_length == f.content_length
            &&& o.content_type@ == spec_content_type(f.canonical_path@)
            &&& o.body == (if head_only { ReplyBody::Empty } else { ReplyBody::File })
        },
        result == Err::<ResolvedFile, ResolveError>(ResolveError::NotFound) && path != seq![SLASH] ==> {
            &&& o.status == 404
            &&& o.body == ReplyBody::Text("not found\n")
        },
        result == Err::<ResolvedFile, ResolveError>(ResolveError::NotFound) && path == seq![SLASH] ==> {
            &&& o.status == 200
            &&& o.content_type@ == "text/html; charset=utf-8"@
            &&& o.body == (if head_only { ReplyBody::Empty } else { ReplyBody::DefaultPage })
        },
        result is Err && o.status == 200 ==> path == seq![SLASH],
        result matches Err(ResolveError::Io(_)) ==> o.status == 500 && o.body == ReplyBody::Text(
            "internal server error\n",
        ),
        result matches Err(e) && !(e is NotFound) && !(e is Io) ==> o.status == 400 && o.body
            == ReplyBody::Text("bad request\n"),
{
}

/// The `Content-Type` of a file depends on its extension alone: two paths
/// with the same extension (`a.min.js` and `b.js`) get the same type, which
/// is what `mime_guess` gives for that extension when it is UTF-8.
pub proof fn law_content_type_follows_extension(p: Seq<u8>, q: Seq<u8>)
    ensures
        path_extension(p) == path_extension(q) ==> spec_content_type(p) == spec_content_type(q),
        path_extension(p) matches Some(ext) ==> (valid_utf8(ext) ==> spec_content_type(p)
            == mime_essence_for_extension(decode_utf8(ext))),
        path_extension(p) is None ==> spec_content_type(p) == "application/octet-stream"@,
{
}

/// A file named `stem.ext` in a directory is typed by `ext`, the part after
/// the last dot of its name: `js/jquery.min.js` gets the type of `js`, as
/// `js/app.js` does.
pub proof fn law_content_type_of_named_file(dir: Seq<u8>, stem: Seq<u8>, ext: Seq<u8>)
    requires
        dir.len() > 0,
        dir.last() != SLASH,
        stem.len() > 0,
        ext.len() > 0,
        forall|k: int| 0 <= k < stem.len() ==> stem[k] != SLASH,
        forall|k: int| 0 <= k < ext.len() ==> ext[k] != SLASH && ext[k] != DOT,
    ensures
        path_extension(dir + seq![SLASH] + (stem + seq![DOT] + ext)) == Some(ext),
        spec_content_type(dir + seq![SLASH] + (stem + seq![DOT] + ext)) == if valid_utf8(ext) {
            mime_essence_for_extension(decode_utf8(ext))
        } else {
            "application/octet-stream"@
        },
{
    lemma_extension_of_file(dir, stem, ext);
}

/// A readiness probe answers `200 ready` exactly when the server is ready
/// and its content readable, and `503 not ready` otherwise; `HEAD` gets the
/// same status and length without the body.
pub proof fn law_readiness_answers(o: ResponseOutcome, head_only: bool, ready: bool, readable: bool)
    requires
        is_readiness_response(o, head_only, ready, readable),
    ensures
        o.status == (if ready && readable { 200u16 } else { 503u16 }),
        o.content_type@ == "text/plain; charset=utf-8"@,
        o.body == if head_only {
            ReplyBody::Empty
        } else if ready && readable {
            ReplyBody::Text("ready\n")
        } else {
            ReplyBody::Text("not ready\n")
        },
{
}

} // verus!
