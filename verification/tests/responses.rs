use tiny_httpd::lookup::ResolvedFile;
use tiny_httpd::reply::{content_type_for, default_index_outcome, file_response};
use tiny_httpd::routing::is_probe_path;
use tiny_httpd::{
    lookup_response, map_file_error, probe_response, readiness_response, route_request,
    status_class, text_response, InFlightRequest, Method, ReplyBody, ResolveError, RouteStep,
    ServerStatus, DEFAULT_INDEX_HTML,
};

fn text_of(body: &ReplyBody) -> Option<&'static str> {
    match body {
        ReplyBody::Text(text) => Some(*text),
        _ => None,
    }
}

fn respond(step: RouteStep) -> tiny_httpd::ResponseOutcome {
    match step {
        RouteStep::Respond(outcome) => outcome,
        _ => panic!("expected an immediate response"),
    }
}

#[test]
fn status_class_covers_all_ranges_and_other_values() {
    assert_eq!(status_class(100), "1xx");
    assert_eq!(status_class(204), "2xx");
    assert_eq!(status_class(302), "3xx");
    assert_eq!(status_class(404), "4xx");
    assert_eq!(status_class(503), "5xx");
    assert_eq!(status_class(99), "other");
    assert_eq!(status_class(600), "other");
}

#[test]
fn in_flight_guard_finish_is_idempotent() {
    let mut guard = InFlightRequest::start();
    assert!(guard.is_pending());
    assert!(guard.finish());
    assert!(!guard.finish());
    assert!(!guard.is_pending());
}

#[test]
fn text_response_carries_explicit_body_size() {
    let body = "hello\n";
    let outcome = text_response(200, body);

    assert_eq!(outcome.body_size, body.len() as u64);
}

#[test]
fn io_errors_map_to_500_with_internal_error_body() {
    let outcome = map_file_error(ResolveError::Io(std::io::Error::other("synthetic failure")));

    assert_eq!(outcome.body_size, 22);
    assert_eq!(outcome.status, 500);
    assert_eq!(outcome.content_type, "text/plain; charset=utf-8");
    assert_eq!(outcome.content_length, 22);
    assert_eq!(text_of(&outcome.body), Some("internal server error\n"));
}

#[test]
fn not_found_maps_to_404() {
    let outcome = map_file_error(ResolveError::NotFound);

    assert_eq!(outcome.body_size, 10);
    assert_eq!(outcome.status, 404);
    assert_eq!(text_of(&outcome.body), Some("not found\n"));
}

#[test]
fn malformed_paths_map_to_400() {
    let outcome = map_file_error(ResolveError::Traversal);

    assert_eq!(outcome.body_size, 12);
    assert_eq!(outcome.status, 400);
    assert_eq!(text_of(&outcome.body), Some("bad request\n"));
}

#[test]
fn probe_responses_ignore_http_method() {
    let livez = probe_response(false, 200, "ok\n");
    assert_eq!(livez.status, 200);

    let readyz = probe_response(false, 503, "not ready\n");
    assert_eq!(readyz.status, 503);
}

#[test]
fn every_resolution_error_has_its_status() {
    for (error, status) in [
        (ResolveError::BadTarget, 400),
        (ResolveError::InvalidPercentEncoding, 400),
        (ResolveError::InvalidUtf8, 400),
        (ResolveError::EncodedSlash, 400),
        (ResolveError::NullByte, 400),
        (ResolveError::Traversal, 400),
        (ResolveError::Escape, 400),
        (ResolveError::NotFound, 404),
    ] {
        assert_eq!(map_file_error(error).status, status);
    }
}

#[test]
fn probes_take_precedence_and_accept_any_method() {
    let ready = ServerStatus::new();
    for method in [Method::Get, Method::Head, Method::Other] {
        let livez = respond(route_request(method, "/livez", ready, true));
        assert_eq!(livez.status, 200);
        assert_eq!(livez.content_type, "text/plain; charset=utf-8");
        assert!(matches!(route_request(method, "/readyz", ready, true), RouteStep::CheckReadiness));
    }
    let livez = respond(route_request(Method::Other, "/livez", ready, true));
    assert_eq!(text_of(&livez.body), Some("ok\n"));
    assert!(is_probe_path("/livez") && is_probe_path("/readyz") && !is_probe_path("/livez/"));
}

#[test]
fn head_probes_keep_length_without_body() {
    let head = respond(route_request(Method::Head, "/livez", ServerStatus::new(), true));
    assert_eq!(head.status, 200);
    assert_eq!(head.content_length, 3);
    assert!(matches!(head.body, ReplyBody::Empty));
    let ready = readiness_response(true, true, true);
    assert_eq!(ready.status, 200);
    assert!(matches!(ready.body, ReplyBody::Empty));
}

#[test]
fn readiness_requires_ready_and_readable_content() {
    assert_eq!(text_of(&readiness_response(false, true, true).body), Some("ready\n"));
    assert_eq!(readiness_response(false, true, false).status, 503);
    assert_eq!(readiness_response(false, false, true).status, 503);
    assert_eq!(text_of(&readiness_response(false, false, true).body), Some("not ready\n"));
    // Without a content root, readiness is answered at once.
    let ready = respond(route_request(Method::Get, "/readyz", ServerStatus::new(), false));
    assert_eq!(text_of(&ready.body), Some("ready\n"));
}

#[test]
fn unsupported_methods_get_405_with_allow_header() {
    let outcome = respond(route_request(Method::Other, "/", ServerStatus::new(), true));
    assert_eq!(outcome.status, 405);
    assert_eq!(outcome.extra_headers, vec![("allow", "GET, HEAD")]);
    assert_eq!(text_of(&outcome.body), Some("method not allowed\n"));
}

#[test]
fn shutdown_drain_refuses_non_probe_requests() {
    let mut status = ServerStatus::new();
    status.begin_shutdown();
    let root = respond(route_request(Method::Get, "/", status, true));
    assert_eq!(root.status, 503);
    assert_eq!(text_of(&root.body), Some("not ready\n"));
    assert_eq!(respond(route_request(Method::Get, "/livez", status, true)).status, 200);
    assert_eq!(respond(route_request(Method::Get, "/readyz", status, false)).status, 503);
    assert_eq!(readiness_response(false, status.ready, true).status, 503);
}

#[test]
fn missing_content_root_serves_default_page_only_at_root() {
    let page = respond(route_request(Method::Get, "/", ServerStatus::new(), false));
    assert_eq!(page.status, 200);
    assert_eq!(page.content_type, "text/html; charset=utf-8");
    assert!(matches!(page.body, ReplyBody::DefaultPage));
    assert!(DEFAULT_INDEX_HTML.contains("<h1>tiny-httpd</h1>"));
    assert!(DEFAULT_INDEX_HTML.contains("No content root configured yet."));
    assert_eq!(page.content_length, DEFAULT_INDEX_HTML.len() as u64);

    let other = respond(route_request(Method::Get, "/other", ServerStatus::new(), false));
    assert_eq!(other.status, 404);
    assert_eq!(text_of(&other.body), Some("not found\n"));

    let head = default_index_outcome(true);
    assert_eq!(head.content_type, "text/html; charset=utf-8");
    assert!(matches!(head.body, ReplyBody::Empty));
}

#[test]
fn lookups_answer_with_file_default_page_or_error() {
    assert!(matches!(route_request(Method::Get, "/x", ServerStatus::new(), true), RouteStep::LookupFile));

    let file = ResolvedFile { canonical_path: b"/srv/index.html".to_vec(), content_length: 5 };
    let served = lookup_response("/", false, Ok(file));
    assert_eq!(served.status, 200);
    assert_eq!(served.content_type, "text/html");
    assert_eq!(served.content_length, 5);
    assert!(matches!(served.body, ReplyBody::File));

    let page = lookup_response("/", true, Err(ResolveError::NotFound));
    assert!(matches!(page.body, ReplyBody::Empty));
    assert_eq!(page.content_type, "text/html; charset=utf-8");

    let missing = lookup_response("/missing", false, Err(ResolveError::NotFound));
    assert_eq!(missing.status, 404);
    assert_eq!(missing.content_length, 10);

    let escape = lookup_response("/escape.txt", false, Err(ResolveError::Escape));
    assert_eq!(escape.status, 400);
}

#[test]
fn content_types_come_from_the_extension() {
    assert_eq!(content_type_for(b"/srv/site.css"), "text/css");
    assert_eq!(content_type_for(b"/srv/app.js"), "text/javascript");
    assert_eq!(content_type_for(b"/srv/data.json"), "application/json");
    assert_eq!(content_type_for(b"/srv/README"), "application/octet-stream");
    assert_eq!(content_type_for(b"/srv/name."), "application/octet-stream");
    assert_eq!(content_type_for(b"/srv/page.HTML"), "text/html");
    let head = file_response(b"/srv/foo.html", 4, true);
    let get = file_response(b"/srv/foo.html", 4, false);
    assert_eq!(head.content_type, get.content_type);
    assert_eq!(head.content_length, get.content_length);
    assert!(matches!(head.body, ReplyBody::Empty));
}

#[test]
fn head_is_answered_like_get() {
    for (path, has_root) in [("/livez", true), ("/", false), ("/other", false)] {
        let head = respond(route_request(Method::Head, path, ServerStatus::new(), has_root));
        let get = respond(route_request(Method::Get, path, ServerStatus::new(), has_root));
        assert_eq!(head.status, get.status);
        assert_eq!(head.content_type, get.content_type);
        assert_eq!(head.content_length, get.content_length);
        assert_eq!(head.body_size, get.body_size);
        assert!(matches!(head.body, ReplyBody::Empty) || text_of(&head.body) == text_of(&get.body));
    }
    assert!(matches!(route_request(Method::Head, "/x", ServerStatus::new(), true), RouteStep::LookupFile));
}

#[test]
fn reported_body_size_is_the_content_length() {
    let outcomes = [
        respond(route_request(Method::Get, "/livez", ServerStatus::new(), true)),
        respond(route_request(Method::Other, "/x", ServerStatus::new(), true)),
        respond(route_request(Method::Head, "/", ServerStatus::new(), false)),
        readiness_response(true, false, true),
        lookup_response("/missing", false, Err(ResolveError::NotFound)),
        lookup_response(
            "/a.txt",
            true,
            Ok(ResolvedFile { canonical_path: b"/srv/a.txt".to_vec(), content_length: 1234 }),
        ),
    ];
    for outcome in outcomes {
        assert_eq!(outcome.body_size, outcome.content_length);
    }
}
