//! Validation of command-line values and of the content root at startup.
use vstd::prelude::*;
use vstd::string::{StrSliceExecFns, StringExecFns};

use crate::bindings::{humantime_duration, parse_human_duration};

verus! {

/// Default socket address the server binds.
pub const DEFAULT_LISTEN_ADDR: &'static str = "0.0.0.0:8080";
/// Default static content root.
pub const DEFAULT_CONTENT_ROOT: &'static str = "/app/public";
/// Default telemetry service name.
pub const DEFAULT_SERVICE_NAME: &'static str = "tiny-httpd";

/// A duration given on the command line, as whole seconds plus nanoseconds.
#[derive(Clone, Copy, Debug, PartialEq, Eq, Structural)]
pub struct Timeout {
    /// Whole seconds.
    pub secs: u64,
    /// Nanoseconds past the whole seconds.
    pub nanos: u32,
}

/// `c` is an ASCII decimal digit.
pub open spec fn is_digit(c: char) -> bool {
    '0' <= c <= '9'
}

/// The decimal value of a string of ASCII digits.
pub open spec fn decimal_value(digits: Seq<char>) -> nat
    decreases digits.len(),
{
    if digits.len() == 0 {
        0
    } else {
        decimal_value(digits.drop_last()) * 10 + ((digits.last() as u32) - ('0' as u32)) as nat
    }
}

/// Every character of `s` is an ASCII digit.
pub open spec fn all_digits(s: Seq<char>) -> bool {
    forall|i: int| 0 <= i < s.len() ==> is_digit(#[trigger] s[i])
}

/// The digits of a port text: the text after an optional leading `+`.
pub open spec fn port_digits(text: Seq<char>) -> Seq<char> {
    if text.len() > 0 && text[0] == '+' {
        text.skip(1)
    } else {
        text
    }
}

/// How `u16` parses a text: an optional `+`, then one or more ASCII digits
/// whose value fits in 16 bits.
pub open spec fn spec_parse_u16(text: Seq<char>) -> Option<u16> {
    let digits = port_digits(text);
    if digits.len() == 0 || !all_digits(digits) {
        None
    } else if decimal_value(digits) <= 65535 {
        Some(decimal_value(digits) as u16)
    } else {
        None
    }
}

/// Reading more digits never lowers a decimal value.
proof fn lemma_decimal_prefix(s: Seq<char>, j: int)
    requires
        0 <= j <= s.len(),
        all_digits(s),
    ensures
        decimal_value(s.take(j)) <= decimal_value(s),
    decreases s.len() - j,
{
    if j == s.len() {
        assert(s.take(j) =~= s);
    } else {
        lemma_decimal_prefix(s, j + 1);
        assert(s.take(j + 1).drop_last() =~= s.take(j));
        assert(s.take(j + 1).last() == s[j]);
    }
}

/// Parses a port number as `str::parse::<u16>` does (see [`spec_parse_u16`]).
fn parse_u16(text: &str) -> (res: Option<u16>)
    ensures
        res == spec_parse_u16(text@),
{
    let n = text.unicode_len();
    let start: usize = if n > 0 && text.get_char(0) == '+' { 1 } else { 0 };
    let ghost digits = port_digits(text@);
    assert(digits =~= text@.skip(start as int));
    if start == n {
        return None;
    }
    let mut value: u32 = 0;
    let mut i: usize = start;
    assert(digits.take(0) =~= Seq::<char>::empty());
    while i < n
        invariant
            start <= i <= n,
            n == text@.len(),
            start < n,
            digits =~= text@.skip(start as int),
            digits == port_digits(text@),
            digits.len() == n - start,
            value == decimal_value(digits.take(i - start)),
            value <= 65535,
            forall|k: int| 0 <= k < i - start ==> is_digit(#[trigger] digits[k]),
        decreases n - i,
    {
        let c = text.get_char(i);
        assert(digits[i - start] == c);
        if !('0' <= c && c <= '9') {
            assert(!is_digit(digits[i - start]));
            let ghost w = (i - start) as int;
            assert(0 <= w < digits.len() && !is_digit(digits[w]));
            assert(exists|k: int| 0 <= k < digits.len() && !is_digit(#[trigger] digits[k]));
            let ghost sd = if text@.len() > 0 && text@[0] == '+' { text@.skip(1) } else { text@ };
            assert(sd == digits);
            assert(!is_digit(sd[w]));
            assert(exists|k: int| 0 <= k < sd.len() && !is_digit(#[trigger] sd[k]));
            assert(spec_parse_u16(text@) is None);
            return None;
        }
        assert(digits.take(i - start + 1).drop_last() =~= digits.take(i - start));
        assert(digits.take(i - start + 1).last() == c);
        value = value * 10 + ((c as u32) - ('0' as u32));
        if value > 65535 {
            proof {
                if all_digits(digits) {
                    lemma_decimal_prefix(digits, i - start + 1);
                }
            }
            return None;
        }
        i = i + 1;
    }
    assert(digits.take(n - start) =~= digits);
    assert(all_digits(digits));
    Some(value as u16)
}

/// The index of the last `:` in `s`, or `-1` when there is none.
pub open spec fn last_colon(s: Seq<char>) -> int
    decreases s.len(),
{
    if s.len() == 0 {
        -1
    } else if s.last() == ':' {
        s.len() - 1
    } else {
        last_colon(s.drop_last())
    }
}

/// How a listen address is judged. A value that parses as a socket address
/// (whose port is `socket_port`) is accepted unless its port is 0. Otherwise
/// it must be `host:port`, split at the last `:`, with a non-empty host that
/// holds no `:` unless it is a bracketed IPv6 literal, and a port that parses
/// as a non-zero `u16`.
pub open spec fn spec_check_listen_addr(value: Seq<char>, socket_port: Option<u16>) -> Result<Seq<char>, Seq<char>> {
    match socket_port {
        Some(port) => if port == 0 {
            Err("port must be greater than 0"@)
        } else {
            Ok(value)
        },
        None => {
            let k = last_colon(value);
            if k < 0 {
                Err("must be a SocketAddr or host:port"@)
            } else {
                let host = value.take(k);
                let port = value.skip(k + 1);
                if host.len() == 0 {
                    Err("host must not be empty"@)
                } else if host.contains(':') && !(host[0] == '[' && host.last() == ']') {
                    Err("IPv6 addresses must be enclosed in brackets, e.g. [::1]:8080"@)
                } else {
                    match spec_parse_u16(port) {
                        None => Err("port must be a valid 16-bit unsigned integer"@),
                        Some(p) => if p == 0 {
                            Err("port must be greater than 0"@)
                        } else {
                            Ok(value)
                        },
                    }
                }
            }
        },
    }
}

/// Validates a listen address given on the command line, where
/// `socket_addr_port` is the port of `value` parsed as a socket address, or
/// `None` when it is not one. Returns the value unchanged when it is accepted,
/// the reason otherwise.
pub fn check_listen_addr(value: &str, socket_addr_port: Option<u16>) -> (res: Result<String, String>)
    ensures
        match (res, spec_check_listen_addr(value@, socket_addr_port)) {
            (Ok(a), Ok(b)) => a@ == b,
            (Err(a), Err(b)) => a@ == b,
            _ => false,
        },
{
    if let Some(port) = socket_addr_port {
        if port == 0 {
            return Err(String::from_str("port must be greater than 0"));
        }
        return Ok(String::from_str(value));
    }
    let n = value.unicode_len();
    // Find the last ':'.
    let mut k: usize = n;
    assert(value@.take(n as int) =~= value@);
    while k > 0 && value.get_char(k - 1) != ':'
        invariant
            k <= n,
            n == value@.len(),
            last_colon(value@) == last_colon(value@.take(k as int)),
        decreases k,
    {
        assert(value@.take(k as int).drop_last() =~= value@.take(k - 1));
        k = k - 1;
    }
    if k == 0 {
        assert(value@.take(0) =~= Seq::<char>::empty());
        return Err(String::from_str("must be a SocketAddr or host:port"));
    }
    let colon = k - 1;
    assert(value@.take(k as int).last() == ':');
    assert(last_colon(value@) == colon);
    let host = value.substring_char(0, colon);
    let port = value.substring_char(colon + 1, n);
    assert(host@ =~= value@.take(colon as int));
    assert(port@ =~= value@.skip(colon + 1));
    if colon == 0 {
        return Err(String::from_str("host must not be empty"));
    }
    // Does the host hold a ':'?
    let mut has_colon = false;
    let mut i: usize = 0;
    while i < colon
        invariant
            i <= colon,
            colon == host@.len(),
            has_colon == exists|j: int| 0 <= j < i && host@[j] == ':',
        decreases colon - i,
    {
        if host.get_char(i) == ':' {
            has_colon = true;
        }
        i = i + 1;
    }
    assert(has_colon == host@.contains(':'));
    if has_colon && !(host.get_char(0) == '[' && host.get_char(colon - 1) == ']') {
        return Err(String::from_str("IPv6 addresses must be enclosed in brackets, e.g. [::1]:8080"));
    }
    match parse_u16(port) {
        None => Err(String::from_str("port must be a valid 16-bit unsigned integer")),
        Some(p) => if p == 0 {
            Err(String::from_str("port must be greater than 0"))
        } else {
            Ok(String::from_str(value))
        },
    }
}

/// How a parsed duration is judged: it must be at least one second.
pub open spec fn spec_check_min_duration(parsed: Result<(u64, u32), Seq<char>>) -> Result<(u64, u32), Seq<char>> {
    match parsed {
        Ok((secs, nanos)) => if secs == 0 {
            Err("duration must be at least 1s"@)
        } else {
            Ok((secs, nanos))
        },
        Err(message) => Err(message),
    }
}

/// Rejects a parsed duration shorter than one second; passes a parse error
/// through unchanged.
pub fn check_min_duration(parsed: Result<Timeout, String>) -> (res: Result<Timeout, String>)
    ensures
        match (res, parsed) {
            (Ok(t), Ok(p)) => t == p && t.secs >= 1,
            (Err(m), Ok(p)) => p.secs == 0 && m@ == "duration must be at least 1s"@,
            (Err(m), Err(n)) => m@ == n@,
            _ => false,
        },
{
    match parsed {
        Ok(t) => if t.secs == 0 {
            Err(String::from_str("duration must be at least 1s"))
        } else {
            Ok(t)
        },
        Err(message) => Err(message),
    }
}

/// `c` can begin a unit in a duration text: an ASCII letter or `µ`, the
/// characters `humantime` reads units from.
pub open spec fn is_unit_char(c: char) -> bool {
    ('a' <= c <= 'z') || ('A' <= c <= 'Z') || c == '\u{b5}'
}

/// The most seconds one unit can stand for, given the unit's first character
/// `c` and the character `next` after it: the longest of the units that
/// `humantime` spells with that start (`mo` months, any other `m` minutes or
/// milliseconds, `M` months, `y` years, `w` weeks, `d` days, `h` hours, `s`
/// seconds; `n`, `u` and `µ` are below a second and count as one). A unit with
/// any other start is one `humantime` does not know, and counts as nothing.
pub open spec fn unit_weight(c: char, next: Option<char>) -> nat {
    if c == 'y' {
        31_557_600
    } else if c == 'M' || (c == 'm' && next == Some('o')) {
        2_630_016
    } else if c == 'w' {
        604_800
    } else if c == 'd' {
        86_400
    } else if c == 'h' {
        3_600
    } else if c == 'm' {
        60
    } else if c == 's' || c == 'n' || c == 'u' || c == '\u{b5}' {
        1
    } else {
        0
    }
}

/// The character after index `i` of `text`, if there is one.
pub open spec fn char_after(text: Seq<char>, i: int) -> Option<char> {
    if i + 1 < text.len() {
        Some(text[i + 1])
    } else {
        None
    }
}

/// Scans a duration text from index `i` on: `closed` counts the seconds the
/// spans already ended by a unit can stand for at most, `amount` is the
/// value of the digits of the span being read (those before its `.`), `open`
/// says a span is being read and `fraction` that its `.` was seen. A span
/// ended by a unit adds its amount times the unit's weight, plus one weight
/// for a fraction. The scan stops where an amount would exceed `u64::MAX`,
/// where `humantime` stops with an overflow error.
pub open spec fn duration_bound_from(
    text: Seq<char>,
    i: int,
    closed: nat,
    amount: nat,
    open: bool,
    fraction: bool,
) -> nat
    decreases text.len() - i,
{
    if i < 0 || i >= text.len() {
        closed
    } else {
        let c = text[i];
        if is_digit(c) {
            if fraction {
                duration_bound_from(text, i + 1, closed, amount, true, true)
            } else {
                let a = amount * 10 + ((c as u32) - ('0' as u32)) as nat;
                if a > u64::MAX {
                    closed
                } else {
                    duration_bound_from(text, i + 1, closed, a, true, false)
                }
            }
        } else if c == '.' {
            duration_bound_from(text, i + 1, closed, amount, open, true)
        } else if open && is_unit_char(c) {
            let w = unit_weight(c, char_after(text, i));
            duration_bound_from(text, i + 1, closed + amount * w + (if fraction { w } else { 0 }), 0, false, false)
        } else {
            duration_bound_from(text, i + 1, closed, amount, open, fraction)
        }
    }
}

/// An upper bound on the seconds that the spans of a duration text add up to
/// in `humantime`, at every step of its sum.
pub open spec fn duration_bound(text: Seq<char>) -> nat {
    duration_bound_from(text, 0, 0, 0, false, false)
}

/// The scan never lowers what was already counted.
proof fn lemma_bound_at_least_closed(text: Seq<char>, i: int, closed: nat, amount: nat, open: bool, fraction: bool)
    ensures
        duration_bound_from(text, i, closed, amount, open, fraction) >= closed,
    decreases text.len() - i,
{
    if 0 <= i < text.len() {
        let c = text[i];
        if is_digit(c) {
            if fraction {
                lemma_bound_at_least_closed(text, i + 1, closed, amount, true, true);
            } else {
                let a = amount * 10 + ((c as u32) - ('0' as u32)) as nat;
                if a <= u64::MAX {
                    lemma_bound_at_least_closed(text, i + 1, closed, a, true, false);
                }
            }
        } else if c == '.' {
            lemma_bound_at_least_closed(text, i + 1, closed, amount, open, true);
        } else if open && is_unit_char(c) {
            let w = unit_weight(c, char_after(text, i));
            lemma_bound_at_least_closed(text, i + 1, closed + amount * w + (if fraction { w } else { 0 }), 0, false, false);
        } else {
            lemma_bound_at_least_closed(text, i + 1, closed, amount, open, fraction);
        }
    }
}

/// The weight of a unit starting at index `i` of `text`.
fn unit_weight_at(text: &str, i: usize, n: usize) -> (res: u64)
    requires
        i < n,
        n == text@.len(),
    ensures
        res == unit_weight(text@[i as int], char_after(text@, i as int)),
{
    let c = text.get_char(i);
    if c == 'y' {
        31_557_600
    } else if c == 'M' {
        2_630_016
    } else if c == 'm' {
        if i + 1 < n && text.get_char(i + 1) == 'o' {
            2_630_016
        } else {
            60
        }
    } else if c == 'w' {
        604_800
    } else if c == 'd' {
        86_400
    } else if c == 'h' {
        3_600
    } else if c == 's' || c == 'n' || c == 'u' || c == '\u{b5}' {
        1
    } else {
        0
    }
}

/// Tests whether a duration text's [`duration_bound`] fits in `u64`.
pub fn duration_within_bound(text: &str) -> (res: bool)
    ensures
        res == (duration_bound(text@) <= u64::MAX),
{
    let n = text.unicode_len();
    let mut closed: u64 = 0;
    let mut amount: u64 = 0;
    let mut open = false;
    let mut fraction = false;
    let mut i: usize = 0;
    while i < n
        invariant
            i <= n,
            n == text@.len(),
            duration_bound(text@) == duration_bound_from(text@, i as int, closed as nat, amount as nat, open, fraction),
        decreases n - i,
    {
        let c = text.get_char(i);
        let code = c as u32;
        if 0x30 <= code && code <= 0x39 {
            if !fraction {
                let digit = (code - 0x30) as u64;
                match amount.checked_mul(10) {
                    Some(t) => match t.checked_add(digit) {
                        Some(a) => {
                            amount = a;
                        },
                        None => return true,
                    },
                    None => return true,
                }
            }
            open = true;
        } else if c == '.' {
            fraction = true;
        } else if open && ((0x61 <= code && code <= 0x7a) || (0x41 <= code && code <= 0x5a) || code == 0xb5) {
            let w = unit_weight_at(text, i, n);
            let extra: u64 = if fraction { w } else { 0 };
            let ghost total = closed + amount * w + extra;
            let sum = match amount.checked_mul(w) {
                Some(p) => match p.checked_add(extra) {
                    Some(q) => q.checked_add(closed),
                    None => None,
                },
                None => None,
            };
            match sum {
                Some(t) => {
                    closed = t;
                    amount = 0;
                    open = false;
                    fraction = false;
                },
                None => {
                    proof {
                        lemma_bound_at_least_closed(text@, i + 1, total as nat, 0, false, false);
                    }
                    return false;
                },
            }
        }
        i = i + 1;
    }
    true
}

/// How a duration text is judged: one whose [`duration_bound`] exceeds
/// `u64::MAX` seconds (where `humantime`'s own sum could overflow) is refused
/// as too large; any other is what `humantime` reads it as, which must be at
/// least one second.
pub open spec fn spec_parse_duration(text: Seq<char>) -> Result<(u64, u32), Seq<char>> {
    if duration_bound(text) > u64::MAX {
        Err("duration is too large"@)
    } else {
        spec_check_min_duration(humantime_duration(text))
    }
}

/// Parses a human-readable duration (`30s`, `2m`, `1h30m`, ...) with
/// `humantime`, requiring at least one second. A text whose spans could add
/// up to more than `u64::MAX` seconds (see [`duration_bound`]) is refused
/// before it reaches `humantime`.
pub fn parse_duration(value: &str) -> (res: Result<Timeout, String>)
    ensures
        match (res, spec_parse_duration(value@)) {
            (Ok(t), Ok((secs, nanos))) => t.secs == secs && t.nanos == nanos,
            (Err(m), Err(n)) => m@ == n,
            _ => false,
        },
{
    if !duration_within_bound(value) {
        return Err(String::from_str("duration is too large"));
    }
    check_min_duration(parse_human_duration(value))
}

/// What reading the content root's metadata at startup showed.
#[derive(Clone, Copy, Debug, PartialEq, Eq, Structural)]
pub enum RootMetadata {
    /// It exists and is a directory.
    Directory,
    /// It exists and is not a directory.
    NotDirectory,
    /// It does not exist.
    Missing,
    /// Its metadata could not be read for another reason.
    Unavailable,
}

/// What startup does with the content root.
#[derive(Clone, Copy, Debug, PartialEq, Eq, Structural)]
pub enum RootDecision {
    /// Canonicalize it and serve from it (a failure there fails startup).
    Canonicalize,
    /// Fail startup: it is not a directory.
    RejectNotDirectory,
    /// Start without a content root, warning that it is missing (or
    /// unavailable when `missing` is false); the welcome page answers `/`.
    ServeWithoutRoot { missing: bool },
}

/// Decides what startup does with the configured content root.
pub fn content_root_decision(metadata: RootMetadata) -> (res: RootDecision)
    ensures
        res == match metadata {
            RootMetadata::Directory => RootDecision::Canonicalize,
            RootMetadata::NotDirectory => RootDecision::RejectNotDirectory,
            RootMetadata::Missing => RootDecision::ServeWithoutRoot { missing: true },
            RootMetadata::Unavailable => RootDecision::ServeWithoutRoot { missing: false },
        },
{
    match metadata {
        RootMetadata::Directory => RootDecision::Canonicalize,
        RootMetadata::NotDirectory => RootDecision::RejectNotDirectory,
        RootMetadata::Missing => RootDecision::ServeWithoutRoot { missing: true },
        RootMetadata::Unavailable => RootDecision::ServeWithoutRoot { missing: false },
    }
}

} // verus!
