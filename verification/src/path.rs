//! A byte-level model of Unix path components (as `std::path::Path` splits
//! them on Unix), with the checks built on it: relative-path validation,
//! component-wise prefix tests and file extensions. Windows rules (drive and
//! UNC prefixes, `\` as a separator) are not modelled: on Unix a `\` or a
//! `C:` is part of a name.
use vstd::prelude::*;
use vstd::string::StringSliceAdditionalSpecFns;

use crate::request_path::{ResolveError, DOT, SLASH};

verus! {

/// The component a segment contributes: none for an empty segment or `.`,
/// the segment itself otherwise (`..` stands for the parent directory).
pub open spec fn kept_segment(seg: Seq<u8>) -> Seq<Seq<u8>> {
    if seg.len() == 0 || seg == seq![DOT] {
        seq![]
    } else {
        seq![seg]
    }
}

/// The components of the `/`-separated segments of `p`, where the current
/// segment began at `start` and the scan has reached `i`.
pub open spec fn body_components(p: Seq<u8>, start: int, i: int) -> Seq<Seq<u8>>
    decreases p.len() - i,
{
    if i >= p.len() {
        kept_segment(p.subrange(start, p.len() as int))
    } else if p[i] == SLASH {
        kept_segment(p.subrange(start, i)) + body_components(p, i + 1, i + 1)
    } else {
        body_components(p, start, i + 1)
    }
}

/// The component that the start of `p` contributes: the root `/` for an
/// absolute path, `.` for a relative path that starts with `./` or is `.`.
pub open spec fn leading_components(p: Seq<u8>) -> Seq<Seq<u8>> {
    if p.len() > 0 && p[0] == SLASH {
        seq![seq![SLASH]]
    } else if p.len() > 0 && p[0] == DOT && (p.len() == 1 || p[1] == SLASH) {
        seq![seq![DOT]]
    } else {
        seq![]
    }
}

/// The components of a Unix path, each written as its text: `/` for the root,
/// `.` for a leading current-directory marker, `..` for a parent directory,
/// and the name for any other component. Repeated separators, trailing
/// separators and interior `.` segments contribute nothing.
pub open spec fn path_components(p: Seq<u8>) -> Seq<Seq<u8>> {
    leading_components(p) + body_components(p, 0, 0)
}

/// The parent-directory component `..`.
pub open spec fn parent_dir() -> Seq<u8> {
    seq![DOT, DOT]
}

/// The byte ranges `ranges` cut out of `p`.
pub open spec fn cut(p: Seq<u8>, ranges: Seq<(usize, usize)>) -> Seq<Seq<u8>> {
    Seq::new(ranges.len(), |k: int| p.subrange(ranges[k].0 as int, ranges[k].1 as int))
}

/// Every range lies inside `p`.
pub open spec fn ranges_within(p: Seq<u8>, ranges: Seq<(usize, usize)>) -> bool {
    forall|k: int| 0 <= k < ranges.len() ==> #[trigger] ranges[k].0 <= ranges[k].1 <= p.len()
}

/// Splits `p` into its path components, returned as byte ranges of `p`.
pub fn component_ranges(p: &[u8]) -> (res: Vec<(usize, usize)>)
    ensures
        ranges_within(p@, res@),
        cut(p@, res@) == path_components(p@),
{
    let n = p.len();
    let mut out: Vec<(usize, usize)> = Vec::new();
    if n > 0 && p[0] == SLASH {
        out.push((0, 1));
        assert(cut(p@, out@) =~= seq![p@.subrange(0, 1)]);
        assert(p@.subrange(0, 1) =~= seq![SLASH]);
    } else if n > 0 && p[0] == DOT && (n == 1 || p[1] == SLASH) {
        out.push((0, 1));
        assert(cut(p@, out@) =~= seq![p@.subrange(0, 1)]);
        assert(p@.subrange(0, 1) =~= seq![DOT]);
    }
    assert(cut(p@, out@) =~= leading_components(p@));
    let mut start: usize = 0;
    let mut i: usize = 0;
    while i < n
        invariant
            n == p@.len(),
            start <= i <= n,
            ranges_within(p@, out@),
            cut(p@, out@) + body_components(p@, start as int, i as int) == path_components(p@),
        decreases n - i,
    {
        if p[i] == SLASH {
            let ghost before = cut(p@, out@);
            let ghost seg = p@.subrange(start as int, i as int);
            keep_range(p, &mut out, start, i);
            assert(before + kept_segment(seg) + body_components(p@, i + 1, i + 1) =~= before + (
            kept_segment(seg) + body_components(p@, i + 1, i + 1)));
            start = i + 1;
        }
        i = i + 1;
    }
    let ghost before = cut(p@, out@);
    let ghost seg = p@.subrange(start as int, n as int);
    keep_range(p, &mut out, start, n);
    assert(before + kept_segment(seg) =~= cut(p@, out@));
    out
}

/// Appends the range `start..end` of `p` when that segment is a component
/// (neither empty nor `.`).
fn keep_range(p: &[u8], out: &mut Vec<(usize, usize)>, start: usize, end: usize)
    requires
        start <= end <= p@.len(),
        ranges_within(p@, old(out)@),
    ensures
        ranges_within(p@, final(out)@),
        cut(p@, final(out)@) == cut(p@, old(out)@) + kept_segment(p@.subrange(start as int, end as int)),
{
    let ghost seg = p@.subrange(start as int, end as int);
    let ghost before = cut(p@, out@);
    if end == start || (end - start == 1 && p[start] == DOT) {
        assert(seg.len() == 0 || seg =~= seq![DOT]);
        assert(before + kept_segment(seg) =~= before);
    } else {
        assert(seg.len() != 1 || seg[0] != DOT);
        assert(seq![DOT][0] == DOT);
        assert(seg != seq![DOT]);
        out.push((start, end));
        assert(cut(p@, out@) =~= before + seq![seg]);
    }
}

/// A relative path's byte-level check, as `Path::components` reads it on
/// Unix: a leading `/` (a root component) is a bad target; otherwise any `..`
/// component is a traversal attempt. Unix paths have no prefix components,
/// so a name such as `C:` is an ordinary component.
pub open spec fn relative_path_check(p: Seq<u8>) -> Result<(), ResolveError> {
    if p.len() > 0 && p[0] == SLASH {
        Err(ResolveError::BadTarget)
    } else if path_components(p).contains(parent_dir()) {
        Err(ResolveError::Traversal)
    } else {
        Ok(())
    }
}

/// Rejects path components that would escape or invalidate relative lookup,
/// read by Unix rules: a root component gives [`ResolveError::BadTarget`], a
/// `..` component [`ResolveError::Traversal`].
pub fn validate_relative_path(relative: &str) -> (res: Result<(), ResolveError>)
    ensures
        match (res, relative_path_check(relative.spec_bytes())) {
            (Ok(()), Ok(())) => true,
            (Err(e), Err(f)) => e == f,
            _ => false,
        },
{
    check_relative_bytes(relative.as_bytes())
}

/// [`validate_relative_path`] on the bytes of a path.
pub(crate) fn check_relative_bytes(p: &[u8]) -> (res: Result<(), ResolveError>)
    ensures
        match (res, relative_path_check(p@)) {
            (Ok(()), Ok(())) => true,
            (Err(e), Err(f)) => e == f,
            _ => false,
        },
{
    let n = p.len();
    if n > 0 && p[0] == SLASH {
        return Err(ResolveError::BadTarget);
    }
    let ranges = component_ranges(p);
    let ghost comps = path_components(p@);
    let mut k: usize = 0;
    while k < ranges.len()
        invariant
            k <= ranges@.len(),
            ranges_within(p@, ranges@),
            cut(p@, ranges@) == comps,
            comps == path_components(p@),
            !(p@.len() > 0 && p@[0] == SLASH),
            forall|m: int| 0 <= m < k ==> comps[m] != parent_dir(),
        decreases ranges@.len() - k,
    {
        let (s, e) = ranges[k];
        assert(comps[k as int] == p@.subrange(s as int, e as int));
        if e - s == 2 && p[s] == DOT && p[s + 1] == DOT {
            assert(comps[k as int] =~= parent_dir());
            assert(comps.contains(parent_dir()));
            assert(!(p@.len() > 0 && p@[0] == SLASH));
            assert(relative_path_check(p@) == Err::<(), ResolveError>(ResolveError::Traversal));
            return Err(ResolveError::Traversal);
        }
        assert(comps[k as int] != parent_dir()) by {
            if comps[k as int] == parent_dir() {
                assert(comps[k as int].len() == 2);
                assert(comps[k as int][0] == p@[s as int]);
                assert(comps[k as int][1] == p@[s + 1]);
            }
        }
        k = k + 1;
    }
    assert(!comps.contains(parent_dir()));
    Ok(())
}

/// `path` begins with all the components of `base`, in order.
pub open spec fn spec_path_starts_with(path: Seq<u8>, base: Seq<u8>) -> bool {
    let a = path_components(path);
    let b = path_components(base);
    b.len() <= a.len() && a.take(b.len() as int) == b
}

/// Compares the byte range `a_start..a_end` of `a` with `b_start..b_end` of `b`.
fn same_bytes(a: &[u8], a_start: usize, a_end: usize, b: &[u8], b_start: usize, b_end: usize) -> (res: bool)
    requires
        a_start <= a_end <= a@.len(),
        b_start <= b_end <= b@.len(),
    ensures
        res == (a@.subrange(a_start as int, a_end as int) == b@.subrange(b_start as int, b_end as int)),
{
    if a_end - a_start != b_end - b_start {
        assert(a@.subrange(a_start as int, a_end as int).len() != b@.subrange(b_start as int, b_end as int).len());
        return false;
    }
    let len = a_end - a_start;
    let ghost sa = a@.subrange(a_start as int, a_end as int);
    let ghost sb = b@.subrange(b_start as int, b_end as int);
    let mut k: usize = 0;
    while k < len
        invariant
            len == a_end - a_start,
            len == b_end - b_start,
            a_start <= a_end <= a@.len(),
            b_start <= b_end <= b@.len(),
            sa == a@.subrange(a_start as int, a_end as int),
            sb == b@.subrange(b_start as int, b_end as int),
            k <= len,
            forall|m: int| 0 <= m < k ==> sa[m] == sb[m],
        decreases len - k,
    {
        assert(sa[k as int] == a@[a_start + k]);
        assert(sb[k as int] == b@[b_start + k]);
        if a[a_start + k] != b[b_start + k] {
            return false;
        }
        k = k + 1;
    }
    assert(sa =~= sb);
    true
}

/// Component-wise prefix test, as `Path::starts_with`: `path` starts with
/// `base` when the components of `base` are the first components of `path`.
pub fn path_starts_with(path: &[u8], base: &[u8]) -> (res: bool)
    ensures
        res == spec_path_starts_with(path@, base@),
{
    let a = component_ranges(path);
    let b = component_ranges(base);
    let ghost ca = path_components(path@);
    let ghost cb = path_components(base@);
    if b.len() > a.len() {
        return false;
    }
    let mut k: usize = 0;
    while k < b.len()
        invariant
            b@.len() <= a@.len(),
            k <= b@.len(),
            ranges_within(path@, a@),
            ranges_within(base@, b@),
            cut(path@, a@) == ca,
            cut(base@, b@) == cb,
            ca == path_components(path@),
            cb == path_components(base@),
            forall|m: int| 0 <= m < k ==> ca[m] == cb[m],
        decreases b@.len() - k,
    {
        let (s1, e1) = a[k];
        let (s2, e2) = b[k];
        assert(ca[k as int] == path@.subrange(s1 as int, e1 as int));
        assert(cb[k as int] == base@.subrange(s2 as int, e2 as int));
        if !same_bytes(path, s1, e1, base, s2, e2) {
            assert(ca.take(cb.len() as int)[k as int] == ca[k as int]);
            assert(ca[k as int] != cb[k as int]);
            assert(ca.take(cb.len() as int) != cb);
            assert(!spec_path_starts_with(path@, base@));
            return false;
        }
        k = k + 1;
    }
    assert(ca.take(cb.len() as int) =~= cb);
    true
}

/// The last component of `p`, when it is a name (not the root, `.` or `..`).
pub open spec fn file_name(p: Seq<u8>) -> Option<Seq<u8>> {
    let c = path_components(p);
    if c.len() == 0 || c.last() == seq![SLASH] || c.last() == seq![DOT] || c.last() == parent_dir() {
        None
    } else {
        Some(c.last())
    }
}

/// The index of the last `.` in `s`, or `-1` when there is none.
pub open spec fn last_dot(s: Seq<u8>) -> int
    decreases s.len(),
{
    if s.len() == 0 {
        -1
    } else if s.last() == DOT {
        s.len() - 1
    } else {
        last_dot(s.drop_last())
    }
}

/// The extension of `p`, as `Path::extension` defines it: what follows the
/// last `.` of the file name, when that dot is not the name's first byte.
pub open spec fn path_extension(p: Seq<u8>) -> Option<Seq<u8>> {
    match file_name(p) {
        Some(name) => {
            let k = last_dot(name);
            if k <= 0 {
                None
            } else {
                Some(name.skip(k + 1))
            }
        },
        None => None,
    }
}

/// Returns the extension of `p` as a byte range of `p`.
pub fn extension_range(p: &[u8]) -> (res: Option<(usize, usize)>)
    ensures
        match (res, path_extension(p@)) {
            (Some((s, e)), Some(ext)) => s <= e <= p@.len() && p@.subrange(s as int, e as int) == ext,
            (None, None) => true,
            _ => false,
        },
{
    let ranges = component_ranges(p);
    let ghost c = path_components(p@);
    let count = ranges.len();
    if count == 0 {
        return None;
    }
    let (s, e) = ranges[count - 1];
    let ghost name = p@.subrange(s as int, e as int);
    assert(c.last() == name);
    if e - s == 1 && (p[s] == SLASH || p[s] == DOT) {
        assert(name =~= seq![p@[s as int]]);
        return None;
    }
    if e - s == 2 && p[s] == DOT && p[s + 1] == DOT {
        assert(name =~= parent_dir());
        return None;
    }
    assert(name != seq![SLASH] && name != seq![DOT] && name != parent_dir()) by {
        if name.len() == 1 {
            assert(name[0] == p@[s as int]);
            assert(seq![SLASH][0] == SLASH);
            assert(seq![DOT][0] == DOT);
        }
        if name.len() == 2 {
            assert(name[0] == p@[s as int]);
            assert(name[1] == p@[s + 1]);
            assert(parent_dir()[0] == DOT && parent_dir()[1] == DOT);
        }
    }
    // Scan the name backwards for its last dot.
    let mut j: usize = e;
    assert(name.take(e - s) =~= name);
    while j > s && p[j - 1] != DOT
        invariant
            s <= j <= e <= p@.len(),
            name == p@.subrange(s as int, e as int),
            last_dot(name) == last_dot(name.take(j - s)),
        decreases j,
    {
        assert(name.take(j - s).drop_last() =~= name.take(j - s - 1));
        j = j - 1;
    }
    if j == s {
        assert(name.take(0) =~= Seq::<u8>::empty());
        return None;
    }
    assert(name.take(j - s).last() == DOT);
    assert(last_dot(name) == j - 1 - s);
    if j - 1 == s {
        return None;
    }
    assert(name.skip(j - s) =~= p@.subrange(j as int, e as int));
    Some((j, e))
}

/// Scanning `x + y` from inside `y` finds the segments of `y`.
proof fn lemma_body_shift(x: Seq<u8>, y: Seq<u8>, start: int, i: int)
    requires
        0 <= start <= i <= y.len(),
    ensures
        body_components(x + y, x.len() + start, x.len() + i) == body_components(y, start, i),
    decreases y.len() - i,
{
    let q = x + y;
    if i >= y.len() {
        assert(q.subrange(x.len() + start, q.len() as int) =~= y.subrange(start, y.len() as int));
    } else {
        assert(q[x.len() + i] == y[i]);
        if y[i] == SLASH {
            lemma_body_shift(x, y, i + 1, i + 1);
            assert(q.subrange(x.len() + start, x.len() + i) =~= y.subrange(start, i));
        } else {
            lemma_body_shift(x, y, start, i + 1);
        }
    }
}

/// The segments of `a/b` are those of `a` followed by those of `b`.
proof fn lemma_body_split(a: Seq<u8>, b: Seq<u8>, start: int, i: int)
    requires
        0 <= start <= i <= a.len(),
    ensures
        body_components(a + seq![SLASH] + b, start, i) == body_components(a, start, i)
            + body_components(b, 0, 0),
    decreases a.len() - i,
{
    let q = a + seq![SLASH] + b;
    if i == a.len() {
        assert(q[i] == SLASH);
        assert(q.subrange(start, i) =~= a.subrange(start, a.len() as int));
        lemma_body_shift(a + seq![SLASH], b, 0, 0);
    } else {
        assert(q[i] == a[i]);
        if a[i] == SLASH {
            lemma_body_split(a, b, i + 1, i + 1);
            assert(q.subrange(start, i) =~= a.subrange(start, i));
            let k = kept_segment(a.subrange(start, i));
            let m = body_components(a, i + 1, i + 1);
            let n = body_components(b, 0, 0);
            assert(k + (m + n) =~= (k + m) + n);
        } else {
            lemma_body_split(a, b, start, i + 1);
        }
    }
}

/// Joining a relative path onto a non-empty base keeps the base's components
/// and appends the relative path's segments (a leading `.` of the relative
/// path contributes nothing).
pub proof fn lemma_join_components(base: Seq<u8>, rel: Seq<u8>)
    requires
        base.len() > 0,
        !(rel.len() > 0 && rel[0] == SLASH),
    ensures
        path_components(crate::lookup::join_path(base, rel)) == path_components(base) + body_components(rel, 0, 0),
{
    let joined = crate::lookup::join_path(base, rel);
    if base.last() != SLASH {
        assert(joined == base + seq![SLASH] + rel);
        lemma_body_split(base, rel, 0, 0);
        assert(joined[0] == base[0]);
        if base.len() > 1 {
            assert(joined[1] == base[1]);
        } else {
            assert(joined[1] == SLASH);
        }
        assert(leading_components(joined) == leading_components(base));
    } else {
        let head = base.drop_last();
        assert(base =~= head + seq![SLASH] + Seq::<u8>::empty());
        assert(joined =~= head + seq![SLASH] + rel);
        lemma_body_split(head, rel, 0, 0);
        lemma_body_split(head, Seq::<u8>::empty(), 0, 0);
        assert(Seq::<u8>::empty().subrange(0, 0) =~= Seq::<u8>::empty());
        assert(body_components(Seq::<u8>::empty(), 0, 0) =~= Seq::<Seq<u8>>::empty());
        assert(body_components(head, 0, 0) + Seq::<Seq<u8>>::empty() =~= body_components(head, 0, 0));
        assert(joined[0] == base[0]);
        if base.len() > 1 {
            assert(joined[1] == base[1]);
        }
        assert(leading_components(joined) == leading_components(base));
    }
    assert(leading_components(base) + (body_components(base, 0, 0) + body_components(rel, 0, 0))
        =~= path_components(base) + body_components(rel, 0, 0));
}

/// A stretch without `/` is one segment.
proof fn lemma_body_no_slash(p: Seq<u8>, start: int, i: int)
    requires
        0 <= start <= i <= p.len(),
        forall|k: int| i <= k < p.len() ==> p[k] != SLASH,
    ensures
        body_components(p, start, i) == kept_segment(p.subrange(start, p.len() as int)),
    decreases p.len() - i,
{
    if i < p.len() {
        lemma_body_no_slash(p, start, i + 1);
    }
}

/// The last `.` of `stem.ext`, when `ext` holds none, is the one between them.
proof fn lemma_last_dot_before_suffix(stem: Seq<u8>, ext: Seq<u8>)
    requires
        forall|k: int| 0 <= k < ext.len() ==> ext[k] != DOT,
    ensures
        last_dot(stem + seq![DOT] + ext) == stem.len(),
    decreases ext.len(),
{
    let name = stem + seq![DOT] + ext;
    if ext.len() > 0 {
        assert(name.last() == ext.last());
        assert(name.drop_last() =~= stem + seq![DOT] + ext.drop_last());
        lemma_last_dot_before_suffix(stem, ext.drop_last());
    } else {
        assert(name.last() == DOT);
    }
}

/// A file `stem.ext` inside a directory has the extension `ext`: the part
/// after the last dot of its name, dots in the stem notwithstanding.
pub proof fn lemma_extension_of_file(dir: Seq<u8>, stem: Seq<u8>, ext: Seq<u8>)
    requires
        dir.len() > 0,
        dir.last() != SLASH,
        stem.len() > 0,
        ext.len() > 0,
        forall|k: int| 0 <= k < stem.len() ==> stem[k] != SLASH,
        forall|k: int| 0 <= k < ext.len() ==> ext[k] != SLASH && ext[k] != DOT,
    ensures
        path_extension(dir + seq![SLASH] + (stem + seq![DOT] + ext)) == Some(ext),
{
    let name = stem + seq![DOT] + ext;
    let p = dir + seq![SLASH] + name;
    assert forall|k: int| 0 <= k < name.len() implies name[k] != SLASH by {
        if k < stem.len() {
            assert(name[k] == stem[k]);
        } else if k > stem.len() {
            assert(name[k] == ext[k - stem.len() - 1]);
        }
    }
    lemma_body_no_slash(name, 0, 0);
    assert(name.subrange(0, name.len() as int) =~= name);
    assert(name != seq![DOT]) by {
        assert(name.len() >= 3);
    }
    assert(body_components(name, 0, 0) =~= seq![name]);
    assert(crate::lookup::join_path(dir, name) == p);
    lemma_join_components(dir, name);
    let c = path_components(p);
    assert(c.last() == name);
    assert(name != seq![SLASH] && name != seq![DOT] && name != parent_dir()) by {
        assert(name.len() >= 3);
    }
    lemma_last_dot_before_suffix(stem, ext);
    assert(name.skip(stem.len() + 1int) =~= ext);
}

/// A `..` segment starts at `k`: two dots, preceded by the start or a `/`,
/// followed by the end or a `/`.
pub open spec fn parent_segment_at(p: Seq<u8>, k: int) -> bool {
    &&& 0 <= k
    &&& k + 2 <= p.len()
    &&& p[k] == DOT
    &&& p[k + 1] == DOT
    &&& (k == 0 || p[k - 1] == SLASH)
    &&& (k + 2 == p.len() || p[k + 2] == SLASH)
}

/// `p` holds a `..` segment somewhere.
pub open spec fn has_parent_segment(p: Seq<u8>) -> bool {
    exists|k: int| #[trigger] parent_segment_at(p, k)
}

pub(crate) proof fn lemma_contains_concat(a: Seq<Seq<u8>>, b: Seq<Seq<u8>>, x: Seq<u8>)
    ensures
        (a + b).contains(x) <==> a.contains(x) || b.contains(x),
{
    if (a + b).contains(x) {
        let i = choose|i: int| 0 <= i < (a + b).len() && (a + b)[i] == x;
        if i < a.len() {
            assert(a[i] == x);
        } else {
            assert(b[i - a.len()] == x);
        }
    }
    if a.contains(x) {
        let i = choose|i: int| 0 <= i < a.len() && a[i] == x;
        assert((a + b)[i] == x);
    }
    if b.contains(x) {
        let i = choose|i: int| 0 <= i < b.len() && b[i] == x;
        assert((a + b)[i + a.len()] == x);
    }
}

proof fn lemma_kept_parent(seg: Seq<u8>)
    ensures
        kept_segment(seg).contains(parent_dir()) <==> seg == parent_dir(),
{
    if seg == parent_dir() {
        assert(seg != seq![DOT]) by {
            assert(seg.len() == 2);
        }
        assert(kept_segment(seg)[0] == seg);
    }
    if kept_segment(seg).contains(parent_dir()) {
        let i = choose|i: int| 0 <= i < kept_segment(seg).len() && kept_segment(seg)[i] == parent_dir();
        assert(kept_segment(seg)[i] == seg);
    }
}

/// The body components from a segment start contain `..` exactly when a
/// `..` segment starts at or after that start.
proof fn lemma_body_parent(p: Seq<u8>, start: int, i: int)
    requires
        0 <= start <= i <= p.len(),
        start == 0 || p[start - 1] == SLASH,
        forall|m: int| start <= m < i ==> p[m] != SLASH,
    ensures
        body_components(p, start, i).contains(parent_dir()) <==> exists|k: int|
            start <= k && #[trigger] parent_segment_at(p, k),
    decreases p.len() - i,
{
    if i >= p.len() {
        let seg = p.subrange(start, p.len() as int);
        lemma_kept_parent(seg);
        if seg == parent_dir() {
            assert(parent_segment_at(p, start));
        }
        if exists|k: int| start <= k && #[trigger] parent_segment_at(p, k) {
            let k = choose|k: int| start <= k && #[trigger] parent_segment_at(p, k);
            if k > start {
                assert(p[k - 1] != SLASH);
            }
            assert(k == start);
            if start + 2 < p.len() {
                assert(p[start + 2] != SLASH);
            }
            assert(seg =~= parent_dir());
        }
    } else if p[i] == SLASH {
        let seg = p.subrange(start, i);
        lemma_body_parent(p, i + 1, i + 1);
        lemma_kept_parent(seg);
        lemma_contains_concat(kept_segment(seg), body_components(p, i + 1, i + 1), parent_dir());
        if seg == parent_dir() {
            assert(parent_segment_at(p, start));
        }
        if exists|k: int| i + 1 <= k && #[trigger] parent_segment_at(p, k) {
            let k = choose|k: int| i + 1 <= k && #[trigger] parent_segment_at(p, k);
            assert(start <= k);
        }
        if exists|k: int| start <= k && #[trigger] parent_segment_at(p, k) {
            let k = choose|k: int| start <= k && #[trigger] parent_segment_at(p, k);
            if k <= i {
                if k > start {
                    assert(p[k - 1] != SLASH);
                }
                assert(k == start);
                if start + 2 < i {
                    assert(p[start + 2] != SLASH);
                }
                assert(start + 2 == i);
                assert(seg =~= parent_dir());
            } else {
                assert(i + 1 <= k);
            }
        }
    } else {
        lemma_body_parent(p, start, i + 1);
    }
}

/// The components of `p` include `..` exactly when `p` holds a `..` segment.
pub proof fn lemma_parent_component_iff_segment(p: Seq<u8>)
    ensures
        path_components(p).contains(parent_dir()) <==> has_parent_segment(p),
{
    lemma_body_parent(p, 0, 0);
    lemma_contains_concat(leading_components(p), body_components(p, 0, 0), parent_dir());
    assert(!leading_components(p).contains(parent_dir())) by {
        if leading_components(p).contains(parent_dir()) {
            let i = choose|i: int| 0 <= i < leading_components(p).len() && leading_components(p)[i] == parent_dir();
            assert(leading_components(p)[i].len() == 1);
        }
    }
    if has_parent_segment(p) {
        let k = choose|k: int| #[trigger] parent_segment_at(p, k);
        assert(0 <= k && parent_segment_at(p, k));
    }
}

} // verus!
