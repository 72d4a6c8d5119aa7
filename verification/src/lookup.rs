//! The decisions of safe file lookup, as a state machine: the caller performs
//! each filesystem step the machine asks for and hands back what happened.
use vstd::prelude::*;
use vstd::string::StringSliceAdditionalSpecFns;

use crate::path::{path_starts_with, spec_path_starts_with};
use crate::request_path::{candidate_paths, push_all, spec_candidate_paths, ResolveError, SLASH};

verus! {

/// A safely resolved file ready to be served.
pub struct ResolvedFile {
    /// Canonical filesystem path to the resolved file.
    pub canonical_path: Vec<u8>,
    /// File length in bytes from the metadata gathered during resolution.
    pub content_length: u64,
}

/// `base` joined with `rel`, as `Path::join` does on Unix: an absolute `rel`
/// replaces `base`; otherwise a `/` is put between them unless `base` is empty
/// or already ends with one.
pub open spec fn join_path(base: Seq<u8>, rel: Seq<u8>) -> Seq<u8> {
    if rel.len() > 0 && rel[0] == SLASH {
        rel
    } else if base.len() > 0 && base.last() != SLASH {
        base + seq![SLASH] + rel
    } else {
        base + rel
    }
}

/// Joins two paths (see [`join_path`]).
pub fn join(base: &[u8], rel: &[u8]) -> (res: Vec<u8>)
    ensures
        res@ == join_path(base@, rel@),
{
    let mut out: Vec<u8> = Vec::new();
    if !(rel.len() > 0 && rel[0] == SLASH) {
        push_all(&mut out, base);
        if base.len() > 0 && base[base.len() - 1] != SLASH {
            out.push(SLASH);
        }
    }
    push_all(&mut out, rel);
    out
}

/// The candidate tried after `index`: the next one, except that the directory
/// index (the second candidate) is tried only when the first candidate turned
/// out to be a directory.
pub open spec fn next_index(index: int, allow_fallback: bool) -> int {
    if index + 1 == 1 && !allow_fallback {
        index + 2
    } else {
        index + 1
    }
}

/// Where a lookup stands: the content root, the candidates in order, the one
/// being tried, and whether the directory-index fallback is allowed.
struct Progress {
    root: Vec<u8>,
    candidates: Vec<Vec<u8>>,
    index: usize,
    allow_fallback: bool,
}

impl Progress {
    #[verifier::type_invariant]
    spec fn wf(self) -> bool {
        &&& 0 < self.candidates@.len() <= 2
        &&& self.index < self.candidates@.len()
    }
}

/// Waiting for the canonical form of the current candidate.
pub struct Locating {
    progress: Progress,
}

/// Waiting for the metadata of a canonical candidate inside the content root.
pub struct Inspecting {
    progress: Progress,
    canonical: Vec<u8>,
}

/// Waiting for a regular file inside the content root to be opened.
pub struct Opening {
    root: Vec<u8>,
    canonical: Vec<u8>,
    length: u64,
    candidates: Ghost<Seq<Seq<u8>>>,
    index: Ghost<int>,
}

impl Inspecting {
    #[verifier::type_invariant]
    spec fn contained(self) -> bool {
        spec_path_starts_with(self.canonical@, self.progress.root@)
    }
}

impl Opening {
    #[verifier::type_invariant]
    spec fn contained(self) -> bool {
        &&& spec_path_starts_with(self.canonical@, self.root@)
        &&& 0 <= self.index@ < self.candidates@.len()
    }
}

/// The next filesystem step a lookup asks for, or its result.
pub enum LookupStep {
    /// Canonicalize this path (content root joined with a candidate).
    Locate(Locating, Vec<u8>),
    /// Read the metadata of this canonical path.
    Inspect(Inspecting, Vec<u8>),
    /// Open this canonical path.
    Open(Opening, Vec<u8>),
    /// The lookup is over.
    Done(Result<ResolvedFile, ResolveError>),
}

impl Locating {
    /// The canonical content root.
    pub closed spec fn root(&self) -> Seq<u8> {
        self.progress.root@
    }

    /// The candidate relative paths, in lookup order.
    pub closed spec fn candidates(&self) -> Seq<Seq<u8>> {
        self.progress.candidates.deep_view()
    }

    /// The index of the candidate being tried.
    pub closed spec fn index(&self) -> int {
        self.progress.index as int
    }

    /// Whether the directory-index candidate may be tried.
    pub closed spec fn allow_fallback(&self) -> bool {
        self.progress.allow_fallback
    }
}

impl Inspecting {
    /// The canonical content root.
    pub closed spec fn root(&self) -> Seq<u8> {
        self.progress.root@
    }

    /// The candidate relative paths, in lookup order.
    pub closed spec fn candidates(&self) -> Seq<Seq<u8>> {
        self.progress.candidates.deep_view()
    }

    /// The index of the candidate being tried.
    pub closed spec fn index(&self) -> int {
        self.progress.index as int
    }

    /// Whether the directory-index candidate may be tried.
    pub closed spec fn allow_fallback(&self) -> bool {
        self.progress.allow_fallback
    }

    /// The canonical path of the current candidate.
    pub closed spec fn canonical(&self) -> Seq<u8> {
        self.canonical@
    }
}

impl Opening {
    /// The canonical content root.
    pub closed spec fn root(&self) -> Seq<u8> {
        self.root@
    }

    /// The canonical path of the file to open.
    pub closed spec fn canonical(&self) -> Seq<u8> {
        self.canonical@
    }

    /// The file length from its metadata.
    pub closed spec fn length(&self) -> u64 {
        self.length
    }

    /// The candidate relative paths, in lookup order.
    pub closed spec fn candidates(&self) -> Seq<Seq<u8>> {
        self.candidates@
    }

    /// The index of the candidate whose canonical form is being opened.
    pub closed spec fn index(&self) -> int {
        self.index@
    }
}

/// `step` tries the candidate after `index` (see [`next_index`]), or ends the
/// lookup with `NotFound` when none is left.
pub open spec fn moves_on(
    step: LookupStep,
    root: Seq<u8>,
    candidates: Seq<Seq<u8>>,
    index: int,
    allow_fallback: bool,
) -> bool {
    let next = next_index(index, allow_fallback);
    if next < candidates.len() {
        step matches LookupStep::Locate(s, p) && {
            &&& s.root() == root
            &&& s.candidates() == candidates
            &&& s.index() == next
            &&& s.allow_fallback() == allow_fallback
            &&& p@ == join_path(root, candidates[next])
        }
    } else {
        step matches LookupStep::Done(Err(ResolveError::NotFound))
    }
}

/// `step` ends the lookup with an I/O failure carrying `error`.
pub open spec fn fails_with(step: LookupStep, error: std::io::Error) -> bool {
    step matches LookupStep::Done(Err(ResolveError::Io(e))) && e == error
}

/// Starts resolving `request_path` under the canonical `content_root`: the
/// request path's candidates are tried in order, the first asked to be
/// canonicalized; a request path without candidates ends the lookup with its
/// error.
pub fn start_lookup(content_root: Vec<u8>, request_path: &str) -> (res: LookupStep)
    ensures
        match spec_candidate_paths(request_path.spec_bytes()) {
            Err(e) => res matches LookupStep::Done(Err(f)) && f == e,
            Ok(c) => res matches LookupStep::Locate(s, p) && {
                &&& s.root() == content_root@
                &&& s.candidates() == c
                &&& s.index() == 0
                &&& !s.allow_fallback()
                &&& p@ == join_path(content_root@, c[0])
            },
        },
{
    match candidate_paths(request_path) {
        Err(e) => LookupStep::Done(Err(e)),
        Ok(candidates) => {
            proof {
                let c = spec_candidate_paths(request_path.spec_bytes())->Ok_0;
                assert(candidates.deep_view() == c);
                assert(candidates.deep_view().len() == candidates@.len());
                assert(c.len() == 1 || c.len() == 2);
                assert(candidates.deep_view()[0] == candidates@[0]@);
            }
            let path = join(content_root.as_slice(), candidates[0].as_slice());
            let progress = Progress { root: content_root, candidates, index: 0, allow_fallback: false };
            LookupStep::Locate(Locating { progress }, path)
        },
    }
}

/// Moves `progress` to the next candidate, or ends the lookup with `NotFound`.
fn move_on(progress: Progress) -> (res: LookupStep)
    ensures
        moves_on(
            res,
            progress.root@,
            progress.candidates.deep_view(),
            progress.index as int,
            progress.allow_fallback,
        ),
{
    proof {
        use_type_invariant(&progress);
    }
    let next = if progress.index == 0 && !progress.allow_fallback {
        progress.index + 2
    } else {
        progress.index + 1
    };
    if next < progress.candidates.len() {
        assert(progress.candidates.deep_view()[next as int] == progress.candidates@[next as int]@);
        let path = join(progress.root.as_slice(), progress.candidates[next].as_slice());
        let Progress { root, candidates, index: _, allow_fallback } = progress;
        LookupStep::Locate(Locating { progress: Progress { root, candidates, index: next, allow_fallback } }, path)
    } else {
        LookupStep::Done(Err(ResolveError::NotFound))
    }
}

impl Locating {
    /// The current candidate canonicalizes to `canonical`. A candidate outside
    /// the content root ends the lookup with `Escape`; otherwise its metadata
    /// is asked for.
    pub fn canonicalized(self, canonical: Vec<u8>) -> (res: LookupStep)
        ensures
            if spec_path_starts_with(canonical@, self.root()) {
                res matches LookupStep::Inspect(s, p) && {
                    &&& s.root() == self.root()
                    &&& s.candidates() == self.candidates()
                    &&& s.index() == self.index()
                    &&& s.allow_fallback() == self.allow_fallback()
                    &&& s.canonical() == canonical@
                    &&& p@ == canonical@
                }
            } else {
                res matches LookupStep::Done(Err(ResolveError::Escape))
            },
    {
        if !path_starts_with(canonical.as_slice(), self.progress.root.as_slice()) {
            return LookupStep::Done(Err(ResolveError::Escape));
        }
        let path = copy_of(&canonical);
        LookupStep::Inspect(Inspecting { progress: self.progress, canonical }, path)
    }

    /// The current candidate does not exist: try the next one.
    pub fn missing(self) -> (res: LookupStep)
        ensures
            moves_on(res, self.root(), self.candidates(), self.index(), self.allow_fallback()),
    {
        move_on(self.progress)
    }

    /// Canonicalization failed for another reason: the lookup fails.
    pub fn failed(self, error: std::io::Error) -> (res: LookupStep)
        ensures
            fails_with(res, error),
    {
        LookupStep::Done(Err(ResolveError::Io(error)))
    }
}

/// A copy of `v`.
fn copy_of(v: &Vec<u8>) -> (res: Vec<u8>)
    ensures
        res@ == v@,
{
    let mut out: Vec<u8> = Vec::new();
    push_all(&mut out, v.as_slice());
    out
}

impl Inspecting {
    /// The current candidate's metadata says whether it is a directory or a
    /// regular file, and its length. The first of two candidates being a
    /// directory allows the directory index; a regular file is asked to be
    /// opened; anything else moves on to the next candidate.
    pub fn inspected(self, is_dir: bool, is_file: bool, length: u64) -> (res: LookupStep)
        ensures
            if is_file {
                res matches LookupStep::Open(s, p) && {
                    &&& s.root() == self.root()
                    &&& s.candidates() == self.candidates()
                    &&& s.index() == self.index()
                    &&& s.canonical() == self.canonical()
                    &&& s.length() == length
                    &&& p@ == self.canonical()
                }
            } else {
                moves_on(
                    res,
                    self.root(),
                    self.candidates(),
                    self.index(),
                    if self.index() == 0 && self.candidates().len() == 2 {
                        is_dir
                    } else {
                        self.allow_fallback()
                    },
                )
            },
    {
        proof {
            use_type_invariant(&self);
            use_type_invariant(&self.progress);
        }
        let Inspecting { progress, canonical } = self;
        let Progress { root, candidates, index, allow_fallback } = progress;
        let allow = if index == 0 && candidates.len() == 2 {
            is_dir
        } else {
            allow_fallback
        };
        assert(candidates.deep_view().len() == candidates@.len());
        if is_file {
            let path = copy_of(&canonical);
            let ghost kept = candidates.deep_view();
            let opening = Opening {
                root,
                canonical,
                length,
                candidates: Ghost(kept),
                index: Ghost(index as int),
            };
            LookupStep::Open(opening, path)
        } else {
            move_on(Progress { root, candidates, index, allow_fallback: allow })
        }
    }

    /// Reading the metadata failed: the lookup fails.
    pub fn failed(self, error: std::io::Error) -> (res: LookupStep)
        ensures
            fails_with(res, error),
    {
        LookupStep::Done(Err(ResolveError::Io(error)))
    }
}

impl Opening {
    /// The file was opened: the lookup resolves to it. The resolved path
    /// always lies inside the content root, and it is the canonical form
    /// reported for one of the candidates, `join_path(root, candidates[i])`.
    pub fn opened(self) -> (res: LookupStep)
        ensures
            res matches LookupStep::Done(Ok(f)) && {
                &&& f.canonical_path@ == self.canonical()
                &&& f.content_length == self.length()
                &&& spec_path_starts_with(f.canonical_path@, self.root())
                &&& 0 <= self.index() < self.candidates().len()
            },
    {
        proof {
            use_type_invariant(&self);
        }
        let Opening { root: _, canonical, length, candidates: _, index: _ } = self;
        LookupStep::Done(Ok(ResolvedFile { canonical_path: canonical, content_length: length }))
    }

    /// Opening failed: the lookup fails.
    pub fn failed(self, error: std::io::Error) -> (res: LookupStep)
        ensures
            fails_with(res, error),
    {
        LookupStep::Done(Err(ResolveError::Io(error)))
    }
}

} // verus!
