//! Percent-decoding of request targets and the candidate files they name.
use vstd::prelude::*;
use vstd::string::StringSliceAdditionalSpecFns;
use vstd::utf8::{decode_utf8, decode_utf8_encode_utf8, encode_utf8, valid_utf8};

use crate::bindings::utf8_to_string;
use crate::path::{check_relative_bytes, relative_path_check};

verus! {

/// ASCII `%`.
pub const PERCENT: u8 = 0x25;
/// ASCII `/`.
pub const SLASH: u8 = 0x2f;
/// ASCII `.`.
pub const DOT: u8 = 0x2e;
/// The NUL byte.
pub const NUL: u8 = 0x00;

/// Errors returned while mapping a request path to a safe filesystem path.
#[derive(Debug)]
pub enum ResolveError {
    /// The request path does not start with `/`, or holds an empty segment.
    BadTarget,
    /// A `%` is not followed by two hex digits.
    InvalidPercentEncoding,
    /// The decoded path is not valid UTF-8.
    InvalidUtf8,
    /// A `%2F` (encoded slash) occurs in the request path.
    EncodedSlash,
    /// A NUL byte occurs in the request path, literally or encoded.
    NullByte,
    /// The decoded path holds a `..` component.
    Traversal,
    /// The canonical candidate lies outside the content root.
    Escape,
    /// No candidate names a regular file.
    NotFound,
    /// A filesystem call failed while resolving the request path.
    Io(std::io::Error),
}

/// The numeric value of one ASCII hex digit, if `byte` is one.
pub open spec fn spec_hex_value(byte: u8) -> Option<u8> {
    if 0x30 <= byte <= 0x39 {
        Some((byte - 0x30) as u8)
    } else if 0x61 <= byte <= 0x66 {
        Some((byte - 0x61 + 10) as u8)
    } else if 0x41 <= byte <= 0x46 {
        Some((byte - 0x41 + 10) as u8)
    } else {
        None
    }
}

/// Converts one ASCII hex digit (`0-9`, `a-f`, `A-F`) into its value.
pub fn hex_value(byte: u8) -> (res: Option<u8>)
    ensures
        res == spec_hex_value(byte),
        res matches Some(v) ==> v < 16,
{
    if 0x30 <= byte && byte <= 0x39 {
        // '0'..='9'
        Some(byte - 0x30)
    } else if 0x61 <= byte && byte <= 0x66 {
        // 'a'..='f'
        Some(byte - 0x61 + 10)
    } else if 0x41 <= byte && byte <= 0x46 {
        // 'A'..='F'
        Some(byte - 0x41 + 10)
    } else {
        None
    }
}

/// Percent-decodes `path` byte by byte, left to right: `%XY` with two hex
/// digits becomes one byte, every other byte stands for itself. The first
/// problem met decides the error: a `%` without two following bytes or with a
/// non-hex digit, an escape that decodes to `/`, or a NUL (literal or decoded).
pub open spec fn percent_decode(path: Seq<u8>) -> Result<Seq<u8>, ResolveError>
    decreases path.len(),
{
    if path.len() == 0 {
        Ok(seq![])
    } else if path[0] == PERCENT {
        if path.len() < 3 {
            Err(ResolveError::InvalidPercentEncoding)
        } else {
            match (spec_hex_value(path[1]), spec_hex_value(path[2])) {
                (Some(high), Some(low)) => {
                    let byte = (high * 16 + low) as u8;
                    if byte == SLASH {
                        Err(ResolveError::EncodedSlash)
                    } else if byte == NUL {
                        Err(ResolveError::NullByte)
                    } else {
                        match percent_decode(path.skip(3)) {
                            Ok(rest) => Ok(seq![byte] + rest),
                            Err(e) => Err(e),
                        }
                    }
                },
                _ => Err(ResolveError::InvalidPercentEncoding),
            }
        }
    } else if path[0] == NUL {
        Err(ResolveError::NullByte)
    } else {
        match percent_decode(path.skip(1)) {
            Ok(rest) => Ok(seq![path[0]] + rest),
            Err(e) => Err(e),
        }
    }
}

/// What `decode_percent_path` gives for a request path with bytes `path`:
/// the percent-decoded text, or the first error met; decoded bytes that are
/// not UTF-8 give `InvalidUtf8`.
pub open spec fn decoded_text(path: Seq<u8>) -> Result<Seq<char>, ResolveError> {
    match percent_decode(path) {
        Ok(bytes) => if valid_utf8(bytes) {
            Ok(decode_utf8(bytes))
        } else {
            Err(ResolveError::InvalidUtf8)
        },
        Err(e) => Err(e),
    }
}

/// Percent-decodes a request path while rejecting encoded slashes and NUL bytes.
///
/// Returns the decoded text, or the first error met from left to right; a
/// decoding that is not valid UTF-8 gives [`ResolveError::InvalidUtf8`].
pub fn decode_percent_path(path: &str) -> (res: Result<String, ResolveError>)
    ensures
        match (res, decoded_text(path.spec_bytes())) {
            (Ok(s), Ok(t)) => s@ == t,
            (Err(e), Err(f)) => e == f,
            _ => false,
        },
{
    let bytes = path.as_bytes();
    let mut decoded: Vec<u8> = Vec::with_capacity(bytes.len());
    let mut index: usize = 0;
    let ghost all = bytes@;
    assert(all.skip(0) =~= all);
    while index < bytes.len()
        invariant
            all == bytes@,
            all == path.spec_bytes(),
            index <= all.len(),
            percent_decode(all) == match percent_decode(all.skip(index as int)) {
                Ok(rest) => Ok(decoded@ + rest),
                Err(e) => Err::<Seq<u8>, ResolveError>(e),
            },
        decreases all.len() - index,
    {
        let ghost tail = all.skip(index as int);
        if bytes[index] == PERCENT {
            if bytes.len() - index < 3 {
                return Err(ResolveError::InvalidPercentEncoding);
            }
            let high = match hex_value(bytes[index + 1]) {
                Some(v) => v,
                None => return Err(ResolveError::InvalidPercentEncoding),
            };
            let low = match hex_value(bytes[index + 2]) {
                Some(v) => v,
                None => return Err(ResolveError::InvalidPercentEncoding),
            };
            let decoded_byte = high * 16 + low;
            if decoded_byte == SLASH {
                return Err(ResolveError::EncodedSlash);
            }
            if decoded_byte == NUL {
                return Err(ResolveError::NullByte);
            }
            let ghost before = decoded@;
            decoded.push(decoded_byte);
            assert(tail.skip(3) =~= all.skip(index + 3));
            proof {
                if let Ok(rest) = percent_decode(all.skip(index + 3)) {
                    assert(before.push(decoded_byte) + rest =~= before + (seq![decoded_byte] + rest));
                }
            }
            index = index + 3;
        } else {
            if bytes[index] == NUL {
                return Err(ResolveError::NullByte);
            }
            let ghost before = decoded@;
            decoded.push(bytes[index]);
            assert(tail.skip(1) =~= all.skip(index + 1));
            proof {
                if let Ok(rest) = percent_decode(all.skip(index + 1)) {
                    assert(before.push(all[index as int]) + rest =~= before + (seq![all[index as int]] + rest));
                }
            }
            index = index + 1;
        }
    }
    assert(all.skip(index as int) =~= Seq::<u8>::empty());
    assert(decoded@ + Seq::<u8>::empty() =~= decoded@);
    match utf8_to_string(decoded) {
        Some(text) => Ok(text),
        None => Err(ResolveError::InvalidUtf8),
    }
}

/// The bytes of `index.html`.
pub open spec fn index_html() -> Seq<u8> {
    seq![0x69u8, 0x6e, 0x64, 0x65, 0x78, 0x2e, 0x68, 0x74, 0x6d, 0x6c]
}

/// `d` holds two consecutive slashes.
pub open spec fn contains_double_slash(d: Seq<u8>) -> bool {
    exists|i: int| 0 <= i < d.len() - 1 && d[i] == SLASH && #[trigger] d[i + 1] == SLASH
}

/// The relative paths to look up, in order, for a request path with bytes
/// `req`, or the error that rejects it. The path must start with `/`; its
/// percent-decoding must succeed, be UTF-8 and hold no empty segment (`//`);
/// the part after the leading `/` must pass [`relative_path_check`]. Then `/`
/// names `index.html`, a path ending in `/` names `index.html` inside that
/// directory, and any other path names the file itself, then `index.html`
/// inside it.
pub open spec fn spec_candidate_paths(req: Seq<u8>) -> Result<Seq<Seq<u8>>, ResolveError> {
    if !(req.len() > 0 && req[0] == SLASH) {
        Err(ResolveError::BadTarget)
    } else {
        match percent_decode(req) {
            Err(e) => Err(e),
            Ok(d) => if !valid_utf8(d) {
                Err(ResolveError::InvalidUtf8)
            } else if contains_double_slash(d) {
                Err(ResolveError::BadTarget)
            } else {
                let rel = d.skip(1);
                match relative_path_check(rel) {
                    Err(e) => Err(e),
                    Ok(()) => if rel.len() == 0 {
                        Ok(seq![index_html()])
                    } else if rel.last() == SLASH {
                        Ok(seq![rel + index_html()])
                    } else {
                        Ok(seq![rel, rel + seq![SLASH] + index_html()])
                    },
                }
            },
        }
    }
}

/// Percent-decoding keeps a leading `/` in place.
proof fn lemma_decode_keeps_leading_slash(req: Seq<u8>)
    requires
        req.len() > 0,
        req[0] == SLASH,
        percent_decode(req) is Ok,
    ensures
        percent_decode(req)->Ok_0.len() > 0,
        percent_decode(req)->Ok_0[0] == SLASH,
{
}

/// Appends all of `src` to `dst`.
pub(crate) fn push_all(dst: &mut Vec<u8>, src: &[u8])
    ensures
        final(dst)@ == old(dst)@ + src@,
{
    let mut k: usize = 0;
    while k < src.len()
        invariant
            k <= src@.len(),
            dst@ == old(dst)@ + src@.take(k as int),
        decreases src@.len() - k,
    {
        dst.push(src[k]);
        assert(src@.take(k + 1) =~= src@.take(k as int).push(src@[k as int]));
        k = k + 1;
    }
    assert(src@.take(k as int) =~= src@);
}

/// Decodes and validates a request path, then returns the relative paths to
/// look up, in order (see [`spec_candidate_paths`]).
pub fn candidate_paths(request_path: &str) -> (res: Result<Vec<Vec<u8>>, ResolveError>)
    ensures
        match (res, spec_candidate_paths(request_path.spec_bytes())) {
            (Ok(v), Ok(s)) => v.deep_view() == s,
            (Err(e), Err(f)) => e == f,
            _ => false,
        },
{
    let raw = request_path.as_bytes();
    if !(raw.len() > 0 && raw[0] == SLASH) {
        return Err(ResolveError::BadTarget);
    }
    let decoded = match decode_percent_path(request_path) {
        Ok(text) => text,
        Err(e) => return Err(e),
    };
    let ghost bytes = percent_decode(raw@)->Ok_0;
    let d = decoded.as_str().as_bytes();
    proof {
        decode_utf8_encode_utf8(bytes);
        lemma_decode_keeps_leading_slash(raw@);
    }
    assert(d@ == bytes);
    if !(d.len() > 0 && d[0] == SLASH) {
        return Err(ResolveError::BadTarget);
    }
    // Reject empty segments: `//` anywhere in the decoded path.
    let mut i: usize = 0;
    while i < d.len()
        invariant
            d@ == bytes,
            raw@ == request_path.spec_bytes(),
            raw@.len() > 0 && raw@[0] == SLASH,
            percent_decode(raw@) == Ok::<Seq<u8>, ResolveError>(bytes),
            valid_utf8(bytes),
            i <= d@.len(),
            forall|k: int| 0 <= k < i && k + 1 < d@.len() ==> !(d@[k] == SLASH && #[trigger] d@[k + 1] == SLASH),
        decreases d@.len() - i,
    {
        if i + 1 < d.len() && d[i] == SLASH && d[i + 1] == SLASH {
            assert(contains_double_slash(bytes));
            return Err(ResolveError::BadTarget);
        }
        i = i + 1;
    }
    assert(!contains_double_slash(bytes));
    let rel = &d[1..d.len()];
    assert(rel@ == bytes.skip(1));
    match check_relative_bytes(rel) {
        Ok(()) => {},
        Err(e) => return Err(e),
    }
    let mut index: Vec<u8> = vec![0x69u8, 0x6e, 0x64, 0x65, 0x78, 0x2e, 0x68, 0x74, 0x6d, 0x6c];
    assert(index@ =~= index_html());
    if rel.len() == 0 {
        assert(index.deep_view() =~= index@);
        let out = vec![index];
        assert(out.deep_view() =~= seq![index_html()]);
        return Ok(out);
    }
    let mut nested: Vec<u8> = Vec::new();
    push_all(&mut nested, rel);
    if rel[rel.len() - 1] == SLASH {
        push_all(&mut nested, index.as_slice());
        assert(nested@ =~= rel@ + index_html());
        assert(nested.deep_view() =~= nested@);
        let out = vec![nested];
        assert(out.deep_view() =~= seq![rel@ + index_html()]);
        Ok(out)
    } else {
        let mut direct: Vec<u8> = Vec::new();
        push_all(&mut direct, rel);
        nested.push(SLASH);
        push_all(&mut nested, index.as_slice());
        assert(nested@ =~= rel@ + seq![SLASH] + index_html());
        assert(direct@ =~= rel@);
        assert(nested.deep_view() =~= nested@);
        assert(direct.deep_view() =~= direct@);
        let out = vec![direct, nested];
        assert(out.deep_view() =~= seq![rel@, rel@ + seq![SLASH] + index_html()]);
        Ok(out)
    }
}

} // verus!
