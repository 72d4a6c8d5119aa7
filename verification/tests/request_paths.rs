use tiny_httpd::lookup::{join, LookupStep};
use tiny_httpd::path::{extension_range, path_starts_with};
use tiny_httpd::{candidate_paths, decode_percent_path, hex_value, start_lookup, validate_relative_path, ResolveError};

fn bytes(text: &str) -> Vec<u8> {
    text.as_bytes().to_vec()
}

#[test]
fn candidate_paths_handles_root_and_directory_fallbacks() {
    assert_eq!(candidate_paths("/").unwrap(), vec![bytes("index.html")]);
    assert_eq!(candidate_paths("/docs/").unwrap(), vec![bytes("docs/index.html")]);
    assert_eq!(
        candidate_paths("/docs").unwrap(),
        vec![bytes("docs"), bytes("docs/index.html")]
    );
}

#[test]
fn candidate_paths_rejects_empty_bad_and_traversal_targets() {
    assert!(matches!(candidate_paths(""), Err(ResolveError::BadTarget)));
    assert!(matches!(candidate_paths("relative"), Err(ResolveError::BadTarget)));
    assert!(matches!(candidate_paths("//double"), Err(ResolveError::BadTarget)));
    assert!(matches!(candidate_paths("/double//slash"), Err(ResolveError::BadTarget)));
    assert!(matches!(candidate_paths("/%2f"), Err(ResolveError::EncodedSlash)));
    assert!(matches!(candidate_paths("/../secret"), Err(ResolveError::Traversal)));
    assert!(matches!(candidate_paths("/%2e%2e/secret"), Err(ResolveError::Traversal)));
}

#[test]
fn candidate_paths_preserves_encoded_and_non_ascii_names() {
    assert_eq!(
        candidate_paths("/space%20name").unwrap(),
        vec![bytes("space name"), bytes("space name/index.html")]
    );
    assert_eq!(
        candidate_paths("/caf%C3%A9").unwrap(),
        vec![bytes("café"), bytes("café/index.html")]
    );
    assert_eq!(candidate_paths("/.../").unwrap(), vec![bytes(".../index.html")]);
}

#[test]
fn decode_percent_path_handles_valid_and_invalid_sequences() {
    assert_eq!(decode_percent_path("/hello%20world").unwrap(), "/hello world");
    assert_eq!(decode_percent_path("/caf%C3%A9").unwrap(), "/café");
    assert!(matches!(decode_percent_path("/%zz"), Err(ResolveError::InvalidPercentEncoding)));
    assert!(matches!(decode_percent_path("/%"), Err(ResolveError::InvalidPercentEncoding)));
    assert!(matches!(decode_percent_path("/%0"), Err(ResolveError::InvalidPercentEncoding)));
    assert!(matches!(decode_percent_path("/%2F"), Err(ResolveError::EncodedSlash)));
    assert!(matches!(decode_percent_path("/%00"), Err(ResolveError::NullByte)));
    assert!(matches!(decode_percent_path("/foo\0bar"), Err(ResolveError::NullByte)));
    assert!(matches!(decode_percent_path("/%FF"), Err(ResolveError::InvalidUtf8)));
}

#[test]
fn validate_relative_path_handles_normal_and_rejected_inputs() {
    assert!(validate_relative_path("index.html").is_ok());
    assert!(validate_relative_path("./nested/file.txt").is_ok());
    assert!(validate_relative_path("...").is_ok());
    assert!(validate_relative_path(&"a".repeat(4096)).is_ok());
    assert!(matches!(validate_relative_path(".."), Err(ResolveError::Traversal)));
    assert!(matches!(validate_relative_path("nested/../file.txt"), Err(ResolveError::Traversal)));
    assert!(matches!(validate_relative_path("/absolute"), Err(ResolveError::BadTarget)));
}

#[test]
fn drive_letters_are_plain_names_on_unix() {
    assert!(validate_relative_path("C:\\windows").is_ok());
    assert!(validate_relative_path("c:x").is_ok());
    assert!(validate_relative_path("..\\secret").is_ok());
    assert!(matches!(validate_relative_path("a/../secret"), Err(ResolveError::Traversal)));
    assert_eq!(candidate_paths("/c:x").unwrap(), vec![bytes("c:x"), bytes("c:x/index.html")]);
}

#[test]
fn hex_value_reads_every_digit_case() {
    assert_eq!(hex_value(b'0'), Some(0));
    assert_eq!(hex_value(b'9'), Some(9));
    assert_eq!(hex_value(b'a'), Some(10));
    assert_eq!(hex_value(b'F'), Some(15));
    assert_eq!(hex_value(b'g'), None);
    assert_eq!(hex_value(b'/'), None);
}

#[test]
fn percent_escapes_decode_to_their_byte_in_either_case() {
    assert_eq!(decode_percent_path("/a%2Eb%2eC").unwrap(), "/a.b.C");
    assert_eq!(decode_percent_path("/plain").unwrap(), "/plain");
    assert!(matches!(decode_percent_path("/a%2f%2fb"), Err(ResolveError::EncodedSlash)));
    assert!(matches!(candidate_paths("/%00secret"), Err(ResolveError::NullByte)));
}

#[test]
fn candidates_never_hold_parent_components() {
    assert!(matches!(candidate_paths("/a/%2E%2E"), Err(ResolveError::Traversal)));
    assert!(matches!(candidate_paths("/a/../b/"), Err(ResolveError::Traversal)));
    assert_eq!(candidate_paths("/a/..b").unwrap(), vec![bytes("a/..b"), bytes("a/..b/index.html")]);
    assert_eq!(candidate_paths("/./x").unwrap(), vec![bytes("./x"), bytes("./x/index.html")]);
}

#[test]
fn path_prefix_is_component_wise() {
    assert!(path_starts_with(b"/srv/www/index.html", b"/srv/www"));
    assert!(path_starts_with(b"/srv/www", b"/srv/www/"));
    assert!(path_starts_with(b"/srv//www/./a", b"/srv/www"));
    assert!(!path_starts_with(b"/srv/www2/index.html", b"/srv/www"));
    assert!(!path_starts_with(b"/etc/passwd", b"/srv/www"));
    assert!(!path_starts_with(b"srv/www/a", b"/srv/www"));
}

#[test]
fn extensions_follow_the_file_name() {
    let ext = |p: &[u8]| extension_range(p).map(|(s, e)| p[s..e].to_vec());
    assert_eq!(ext(b"/srv/site.css"), Some(b"css".to_vec()));
    assert_eq!(ext(b"/srv/archive.tar.gz"), Some(b"gz".to_vec()));
    assert_eq!(ext(b"/srv/.hidden"), None);
    assert_eq!(ext(b"/srv/README"), None);
    assert_eq!(ext(b"/srv/name."), Some(Vec::new()));
    assert_eq!(ext(b"/srv/dir.d/"), Some(b"d".to_vec()));
    assert_eq!(ext(b"/"), None);
}

#[test]
fn join_inserts_one_separator() {
    assert_eq!(join(b"/srv/www", b"docs/index.html"), b"/srv/www/docs/index.html".to_vec());
    assert_eq!(join(b"/srv/www/", b"a"), b"/srv/www/a".to_vec());
    assert_eq!(join(b"", b"a"), b"a".to_vec());
    assert_eq!(join(b"/srv", b"/etc"), b"/etc".to_vec());
}

#[test]
fn lookup_serves_a_contained_file() {
    let step = start_lookup(b"/srv/www".to_vec(), "/foo.html");
    let LookupStep::Locate(locating, path) = step else { panic!("expected a canonicalization step") };
    assert_eq!(path, b"/srv/www/foo.html".to_vec());
    let LookupStep::Inspect(inspecting, path) = locating.canonicalized(b"/srv/www/foo.html".to_vec()) else {
        panic!("expected an inspection step")
    };
    assert_eq!(path, b"/srv/www/foo.html".to_vec());
    let LookupStep::Open(opening, path) = inspecting.inspected(false, true, 4) else { panic!("expected an open step") };
    assert_eq!(path, b"/srv/www/foo.html".to_vec());
    let LookupStep::Done(Ok(file)) = opening.opened() else { panic!("expected a resolved file") };
    assert_eq!(file.canonical_path, b"/srv/www/foo.html".to_vec());
    assert_eq!(file.content_length, 4);
}

#[test]
fn lookup_rejects_symlink_escape() {
    let LookupStep::Locate(locating, _) = start_lookup(b"/tmp/public".to_vec(), "/escape.txt") else {
        panic!("expected a canonicalization step")
    };
    assert!(matches!(
        locating.canonicalized(b"/tmp/secret.txt".to_vec()),
        LookupStep::Done(Err(ResolveError::Escape))
    ));
}

#[test]
fn lookup_falls_back_to_directory_index_only_for_directories() {
    // `/docs` is a directory: its index is tried next.
    let LookupStep::Locate(locating, _) = start_lookup(b"/r".to_vec(), "/docs") else { panic!() };
    let LookupStep::Inspect(inspecting, _) = locating.canonicalized(b"/r/docs".to_vec()) else { panic!() };
    let LookupStep::Locate(_, path) = inspecting.inspected(true, false, 0) else { panic!("expected the index") };
    assert_eq!(path, b"/r/docs/index.html".to_vec());

    // `/lonely` does not exist: its index is not tried.
    let LookupStep::Locate(locating, _) = start_lookup(b"/r".to_vec(), "/lonely") else { panic!() };
    assert!(matches!(locating.missing(), LookupStep::Done(Err(ResolveError::NotFound))));

    // `/docs/` names the index directly.
    let LookupStep::Locate(locating, path) = start_lookup(b"/r".to_vec(), "/docs/") else { panic!() };
    assert_eq!(path, b"/r/docs/index.html".to_vec());
    assert!(matches!(locating.missing(), LookupStep::Done(Err(ResolveError::NotFound))));
}

#[test]
fn lookup_reports_filesystem_failures_and_bad_targets() {
    let LookupStep::Locate(locating, _) = start_lookup(b"/r".to_vec(), "/x") else { panic!() };
    assert!(matches!(
        locating.failed(std::io::Error::other("denied")),
        LookupStep::Done(Err(ResolveError::Io(_)))
    ));
    assert!(matches!(start_lookup(b"/r".to_vec(), "/%zz"), LookupStep::Done(Err(ResolveError::InvalidPercentEncoding))));
}

#[test]
fn fully_escaped_names_decode_back() {
    assert_eq!(decode_percent_path("/%73%70%61%63%65%20%6E%61%6D%65").unwrap(), "/space name");
    assert_eq!(decode_percent_path("/%64%6F%63%73/%61/").unwrap(), "/docs/a/");
    assert_eq!(
        candidate_paths("/%64%6F%63%73").unwrap(),
        vec![bytes("docs"), bytes("docs/index.html")]
    );
}

#[test]
fn lookup_paths_stay_under_root() {
    for root in [&b"/srv/www"[..], &b"/srv/www/"[..], &b"/"[..]] {
        for req in ["/", "/docs", "/a/./b/", "/%2E/x", "/..."] {
            for candidate in candidate_paths(req).unwrap() {
                assert!(path_starts_with(&join(root, &candidate), root));
            }
        }
    }
}

#[test]
fn candidates_end_with_an_index() {
    for req in ["/", "/docs", "/docs/", "/a%20b/c"] {
        let candidates = candidate_paths(req).unwrap();
        assert!(!candidates.is_empty() && candidates.len() <= 2);
        assert!(candidates.last().unwrap().ends_with(b"index.html"));
        assert!(candidates.iter().all(|c| !c.contains(&0)));
    }
}

#[test]
fn decoding_keeps_plain_text_and_shrinks_by_escapes() {
    assert_eq!(decode_percent_path("/café/naïve").unwrap(), "/café/naïve");
    assert_eq!(decode_percent_path("/%64%6f%63%73/%61").unwrap(), "/docs/a");
    let path = "/a%20b/%c3%a9";
    let decoded = decode_percent_path(path).unwrap();
    assert_eq!(decoded.len() + 2 * path.matches('%').count(), path.len());
    assert_eq!(decoded.matches('/').count(), path.matches('/').count());
    assert!(matches!(decode_percent_path("/ok%2"), Err(ResolveError::InvalidPercentEncoding)));
}
