use std::time::Duration;

use tiny_httpd::cli::{
    check_min_duration, content_root_decision, duration_within_bound, RootDecision, RootMetadata,
};
use tiny_httpd::{check_listen_addr, parse_duration, Timeout};

/// The port of `value` read as a socket address, written out for the values
/// below: `Some` only for IP-literal socket addresses.
fn socket_port(value: &str) -> Option<u16> {
    match value {
        "127.0.0.1:8080" | "[::1]:8080" => Some(8080),
        "127.0.0.1:0" | "[::1]:0" => Some(0),
        "127.0.0.1:3000" => Some(3000),
        _ => None,
    }
}

fn parse_listen_addr(value: &str) -> Result<String, String> {
    check_listen_addr(value, socket_port(value))
}

fn parse_std_duration(value: &str) -> Result<Duration, String> {
    parse_duration(value).map(|t| Duration::new(t.secs, t.nanos))
}

#[test]
fn parse_listen_addr_accepts_socket_addrs_and_hostnames() {
    for value in ["127.0.0.1:8080", "[::1]:8080", "localhost:443"] {
        assert_eq!(parse_listen_addr(value), Ok(value.to_owned()));
    }
}

#[test]
fn parse_listen_addr_rejects_port_zero() {
    for value in ["127.0.0.1:0", "localhost:0", "[::1]:0"] {
        assert_eq!(parse_listen_addr(value), Err("port must be greater than 0".to_owned()));
    }
}

#[test]
fn parse_listen_addr_rejects_missing_separator_or_empty_host() {
    assert_eq!(parse_listen_addr("nocolon"), Err("must be a SocketAddr or host:port".to_owned()));
    assert_eq!(parse_listen_addr(":8080"), Err("host must not be empty".to_owned()));
}

#[test]
fn parse_listen_addr_rejects_unbracketed_ipv6_and_invalid_port() {
    assert_eq!(
        parse_listen_addr("::1:8080"),
        Err("IPv6 addresses must be enclosed in brackets, e.g. [::1]:8080".to_owned())
    );
    assert_eq!(
        parse_listen_addr("host:99999"),
        Err("port must be a valid 16-bit unsigned integer".to_owned())
    );
}

#[test]
fn listen_port_parsing_follows_u16_rules() {
    assert_eq!(parse_listen_addr("host:+80"), Ok("host:+80".to_owned()));
    assert_eq!(parse_listen_addr("host:65535"), Ok("host:65535".to_owned()));
    assert_eq!(
        parse_listen_addr("host:65536"),
        Err("port must be a valid 16-bit unsigned integer".to_owned())
    );
    assert_eq!(parse_listen_addr("host:"), Err("port must be a valid 16-bit unsigned integer".to_owned()));
    assert_eq!(parse_listen_addr("host:-1"), Err("port must be a valid 16-bit unsigned integer".to_owned()));
    assert_eq!(parse_listen_addr("[fe80::1%lo]:80"), Ok("[fe80::1%lo]:80".to_owned()));
}

#[test]
fn parse_duration_accepts_human_readable_values() {
    assert_eq!(parse_std_duration("30s"), Ok(Duration::from_secs(30)));
    assert_eq!(parse_std_duration("2m"), Ok(Duration::from_secs(120)));
    assert_eq!(parse_std_duration("1h30m"), Ok(Duration::from_secs(5_400)));
}

#[test]
fn parse_duration_rejects_values_below_one_second() {
    assert_eq!(parse_std_duration("999ms"), Err("duration must be at least 1s".to_owned()));
}

#[test]
fn parse_duration_keeps_fractions_and_reports_parse_errors() {
    assert_eq!(parse_duration("1500ms"), Ok(Timeout { secs: 1, nanos: 500_000_000 }));
    assert!(parse_duration("soon").is_err());
    assert_eq!(check_min_duration(Ok(Timeout { secs: 0, nanos: 999 })), Err("duration must be at least 1s".to_owned()));
    assert_eq!(check_min_duration(Err("bad".to_owned())), Err("bad".to_owned()));
    assert_eq!(check_min_duration(Ok(Timeout { secs: 1, nanos: 0 })), Ok(Timeout { secs: 1, nanos: 0 }));
}

#[test]
fn socket_addresses_are_judged_by_their_port_alone() {
    assert_eq!(check_listen_addr("[::1]:8080", Some(8080)), Ok("[::1]:8080".to_owned()));
    assert_eq!(check_listen_addr("[::1]:0", Some(0)), Err("port must be greater than 0".to_owned()));
    assert_eq!(check_listen_addr("[::1]:8080", None), Ok("[::1]:8080".to_owned()));
}

#[test]
fn content_root_startup_decisions() {
    assert_eq!(content_root_decision(RootMetadata::Directory), RootDecision::Canonicalize);
    assert_eq!(content_root_decision(RootMetadata::NotDirectory), RootDecision::RejectNotDirectory);
    assert_eq!(content_root_decision(RootMetadata::Missing), RootDecision::ServeWithoutRoot { missing: true });
    assert_eq!(content_root_decision(RootMetadata::Unavailable), RootDecision::ServeWithoutRoot { missing: false });
}

#[test]
fn oversized_durations_are_refused_before_parsing() {
    assert_eq!(
        parse_duration("18446744073709551615s 1000000000ns"),
        Err("duration is too large".to_owned())
    );
    assert_eq!(parse_duration("100000000001s"), Ok(Timeout { secs: 100_000_000_001, nanos: 0 }));
    assert_eq!(parse_std_duration("200000000000ns"), Ok(Duration::from_secs(200)));
    assert_eq!(parse_duration("18446744073709551615s"), Ok(Timeout { secs: u64::MAX, nanos: 0 }));
    assert!(duration_within_bound("584542046090y"));
    assert!(!duration_within_bound("584542046091y"));
    assert!(duration_within_bound("7013928460400months"));
    assert!(!duration_within_bound("7013928460401mo"));
    assert!(duration_within_bound("7013928460401min"));
    assert!(duration_within_bound("1h 30m 15s 500ms"));
    assert!(!duration_within_bound("18446744073709551615s 1.5s"));
    // An amount beyond u64 is humantime's own overflow error, not a refusal.
    let overflow = parse_duration("99999999999999999999s");
    assert!(overflow.is_err());
    assert_ne!(overflow, Err("duration is too large".to_owned()));
    assert_eq!(parse_std_duration("1.5h"), Ok(Duration::from_secs(5_400)));
}
