//! Finding a backend's executable among the ancestors of the running
//! application's own location.

use vstd::prelude::*;
use crate::error::BackendError;
use crate::path::{FsPath, PathView, strs_view, paths_view, parent_of, contains_path, lemma_strs_push};

verus! {

/// The values of a sequence of relative paths, each given by its components.
pub open spec fn rel_paths_view(v: Seq<Vec<String>>) -> Seq<PathView> {
    v.map_values(|x: Vec<String>| strs_view(x@))
}

/// How to find one backend: where to look and what to look for.
#[derive(Debug)]
pub struct BackendDescriptor {
    /// The name that failures report.
    pub name: String,
    /// Directories to search under each ancestor, most preferred first.
    pub base_dirs: Vec<Vec<String>>,
    /// Executable paths, relative to a base directory, most preferred first.
    pub exe_names: Vec<Vec<String>>,
    /// Files that must lie beside an executable for it to be accepted.
    pub siblings: Vec<String>,
}

impl BackendDescriptor {
    pub open spec fn bases(&self) -> Seq<PathView> {
        rel_paths_view(self.base_dirs@)
    }

    pub open spec fn names(&self) -> Seq<PathView> {
        rel_paths_view(self.exe_names@)
    }

    pub open spec fn sibling_names(&self) -> Seq<Seq<char>> {
        strs_view(self.siblings@)
    }
}

/// The candidates under one directory: each executable name, in order.
pub open spec fn row(dir: PathView, names: Seq<PathView>) -> Seq<PathView> {
    names.map_values(|e: PathView| dir + e)
}

/// The candidates under one ancestor: for each base directory in order, each
/// executable name in order.
pub open spec fn layer(anc: PathView, bases: Seq<PathView>, names: Seq<PathView>) -> Seq<PathView>
    decreases bases.len(),
{
    if bases.len() == 0 {
        Seq::empty()
    } else {
        layer(anc, bases.drop_last(), names) + row(anc + bases.last(), names)
    }
}

/// The candidates under the `j` closest ancestors of `anchor`, closest first.
/// The closest ancestor is `anchor` itself, then each shorter prefix in turn.
pub open spec fn walk(anchor: PathView, j: nat, bases: Seq<PathView>, names: Seq<PathView>) -> Seq<PathView>
    decreases j,
{
    if j == 0 {
        Seq::empty()
    } else {
        walk(anchor, (j - 1) as nat, bases, names) + layer(
            anchor.take(anchor.len() - (j - 1)),
            bases,
            names,
        )
    }
}

/// Every candidate path for `d`, in the order of preference.
pub open spec fn search_order(anchor: PathView, d: BackendDescriptor) -> Seq<PathView> {
    walk(anchor, anchor.len(), d.bases(), d.names())
}

/// Where sibling `s` of executable `c` would lie.
pub open spec fn sibling_of(c: PathView, s: Seq<char>) -> PathView {
    parent_of(c).push(s)
}

/// A candidate is accepted when it exists and so does each required sibling.
pub open spec fn accepted(c: PathView, siblings: Seq<Seq<char>>, fs: Set<PathView>) -> bool {
    &&& fs.contains(c)
    &&& forall|k: int| 0 <= k < siblings.len() ==> fs.contains(#[trigger] sibling_of(c, siblings[k]))
}

/// The first accepted candidate, if any.
pub open spec fn first_accepted(cands: Seq<PathView>, siblings: Seq<Seq<char>>, fs: Set<PathView>) -> Option<PathView>
    decreases cands.len(),
{
    if cands.len() == 0 {
        None
    } else if accepted(cands[0], siblings, fs) {
        Some(cands[0])
    } else {
        first_accepted(cands.drop_first(), siblings, fs)
    }
}

/// The path that resolution picks, given the set of existing files.
pub open spec fn resolution(anchor: PathView, d: BackendDescriptor, fs: Set<PathView>) -> Option<PathView> {
    first_accepted(search_order(anchor, d), d.sibling_names(), fs)
}

/// An executable that was found, with the directory it lies in.
#[derive(Debug)]
pub struct ResolvedExecutable {
    path: FsPath,
    dir: FsPath,
}

impl ResolvedExecutable {
    pub closed spec fn path_view(&self) -> PathView {
        self.path@
    }

    pub closed spec fn dir_view(&self) -> PathView {
        self.dir@
    }

    /// The executable at `path`, run from the directory that holds it.
    pub fn from_path(path: FsPath) -> (r: ResolvedExecutable)
        ensures
            r.path_view() == path@,
            r.dir_view() == parent_of(path@),
    {
        let dir = path.parent();
        ResolvedExecutable { path, dir }
    }

    /// The executable's path.
    pub fn path(&self) -> (r: &FsPath)
        ensures
            r@ == self.path_view(),
    {
        &self.path
    }

    /// The working directory for the process: the executable's own directory.
    pub fn dir(&self) -> (r: &FsPath)
        ensures
            r@ == self.dir_view(),
    {
        &self.dir
    }
}

proof fn lemma_paths_push(v: Seq<FsPath>, p: FsPath)
    ensures
        paths_view(v.push(p)) == paths_view(v).push(p@),
{
    assert(paths_view(v.push(p)) =~= paths_view(v).push(p@));
}

/// Appends the candidates under the directory `dir`.
fn push_row(out: &mut Vec<FsPath>, dir: &FsPath, names: &Vec<Vec<String>>)
    ensures
        paths_view(final(out)@) == paths_view(old(out)@) + row(dir@, rel_paths_view(names@)),
{
    let ghost start = paths_view(out@);
    let ghost nv = rel_paths_view(names@);
    let mut m: usize = 0;
    while m < names.len()
        invariant
            m <= names@.len(),
            nv == rel_paths_view(names@),
            paths_view(out@) == start + row(dir@, nv.take(m as int)),
        decreases names@.len() - m,
    {
        let c = dir.join(&names[m]);
        proof {
            lemma_paths_push(out@, c);
        }
        out.push(c);
        m = m + 1;
        assert(row(dir@, nv.take(m as int)) =~= row(dir@, nv.take(m - 1 as int)).push(dir@ + nv[m - 1]));
        assert(paths_view(out@) =~= start + row(dir@, nv.take(m as int)));
    }
    assert(nv.take(names@.len() as int) =~= nv);
}

proof fn lemma_layer_step(anc: PathView, bases: Seq<PathView>, names: Seq<PathView>, j: int)
    requires
        0 <= j < bases.len(),
    ensures
        layer(anc, bases.take(j + 1), names) == layer(anc, bases.take(j), names) + row(anc + bases[j], names),
{
    assert(bases.take(j + 1).drop_last() =~= bases.take(j));
}

/// Appends the candidates under the ancestor `anc`.
fn push_layer(out: &mut Vec<FsPath>, anc: &FsPath, d: &BackendDescriptor)
    ensures
        paths_view(final(out)@) == paths_view(old(out)@) + layer(anc@, d.bases(), d.names()),
{
    let ghost start = paths_view(out@);
    let ghost bv = d.bases();
    let mut j: usize = 0;
    while j < d.base_dirs.len()
        invariant
            j <= d.base_dirs@.len(),
            bv == d.bases(),
            paths_view(out@) == start + layer(anc@, bv.take(j as int), d.names()),
        decreases d.base_dirs@.len() - j,
    {
        let dir = anc.join(&d.base_dirs[j]);
        push_row(out, &dir, &d.exe_names);
        proof {
            lemma_layer_step(anc@, bv, d.names(), j as int);
        }
        j = j + 1;
        assert(paths_view(out@) =~= start + layer(anc@, bv.take(j as int), d.names()));
    }
    assert(bv.take(d.base_dirs@.len() as int) =~= bv);
}

/// Every path at which `d`'s executable may lie, in the order of preference:
/// for each ancestor of `anchor`, closest first (`anchor` itself, then each
/// parent in turn), for each base directory, for each executable name.
pub fn candidate_paths(anchor: &FsPath, d: &BackendDescriptor) -> (r: Vec<FsPath>)
    ensures
        paths_view(r@) == search_order(anchor@, *d),
{
    let mut out: Vec<FsPath> = Vec::new();
    let n = anchor.len();
    let mut j: usize = 0;
    assert(paths_view(out@) =~= walk(anchor@, 0, d.bases(), d.names()));
    while j < n
        invariant
            j <= n == anchor@.len(),
            paths_view(out@) == walk(anchor@, j as nat, d.bases(), d.names()),
        decreases n - j,
    {
        let anc = anchor.prefix(n - j);
        push_layer(&mut out, &anc, d);
        j = j + 1;
    }
    out
}

/// Where the required siblings of the candidate `c` would lie, in the order
/// of `d.siblings`.
pub fn sibling_paths(c: &FsPath, d: &BackendDescriptor) -> (r: Vec<FsPath>)
    ensures
        r@.len() == d.siblings@.len(),
        forall|k: int| 0 <= k < r@.len() ==> r@[k]@ == sibling_of(c@, d.sibling_names()[k]),
{
    let dir = c.parent();
    let mut out: Vec<FsPath> = Vec::new();
    let mut k: usize = 0;
    while k < d.siblings.len()
        invariant
            k <= d.siblings@.len(),
            dir@ == parent_of(c@),
            out@.len() == k,
            forall|i: int| 0 <= i < k ==> out@[i]@ == sibling_of(c@, d.sibling_names()[i]),
        decreases d.siblings@.len() - k,
    {
        out.push(dir.child(d.siblings[k].as_str()));
        k = k + 1;
    }
    out
}

/// Whether `c` exists in `files` together with every sibling `d` requires.
fn is_accepted(c: &FsPath, d: &BackendDescriptor, files: &Vec<FsPath>) -> (r: bool)
    ensures
        r == accepted(c@, d.sibling_names(), paths_view(files@).to_set()),
{
    let ghost fs = paths_view(files@).to_set();
    if !contains_path(files, c) {
        return false;
    }
    let sibs = sibling_paths(c, d);
    let mut k: usize = 0;
    while k < sibs.len()
        invariant
            k <= sibs@.len() == d.siblings@.len(),
            fs == paths_view(files@).to_set(),
            forall|i: int| 0 <= i < sibs@.len() ==> sibs@[i]@ == sibling_of(c@, d.sibling_names()[i]),
            forall|i: int| 0 <= i < k ==> fs.contains(#[trigger] sibling_of(c@, d.sibling_names()[i])),
        decreases sibs@.len() - k,
    {
        if !contains_path(files, &sibs[k]) {
            assert(!fs.contains(sibling_of(c@, d.sibling_names()[k as int])));
            return false;
        }
        k = k + 1;
    }
    true
}

/// Picks `d`'s executable. `files` is a snapshot of the filesystem: the paths
/// that exist. The first candidate of `candidate_paths` that exists, with all
/// its required siblings, is chosen; when there is none, the error lists
/// every candidate.
pub fn resolve(anchor: &FsPath, d: &BackendDescriptor, files: &Vec<FsPath>) -> (r: Result<ResolvedExecutable, BackendError>)
    ensures
        match resolution(anchor@, *d, paths_view(files@).to_set()) {
            Some(c) => r matches Ok(x) && x.path_view() == c && x.dir_view() == parent_of(c),
            None => r matches Err(BackendError::ResolutionFailed { backend, checked })
                && backend@ == d.name@ && paths_view(checked@) == search_order(anchor@, *d),
        },
{
    let cands = candidate_paths(anchor, d);
    let ghost fs = paths_view(files@).to_set();
    let ghost cv = paths_view(cands@);
    let mut i: usize = 0;
    assert(cv.skip(0) =~= cv);
    while i < cands.len()
        invariant
            i <= cands@.len(),
            cv == paths_view(cands@),
            fs == paths_view(files@).to_set(),
            cv == search_order(anchor@, *d),
            first_accepted(cv, d.sibling_names(), fs) == first_accepted(cv.skip(i as int), d.sibling_names(), fs),
        decreases cands@.len() - i,
    {
        assert(cv.skip(i as int)[0] == cv[i as int]);
        if is_accepted(&cands[i], d, files) {
            return Ok(ResolvedExecutable::from_path(cands[i].duplicate()));
        }
        assert(cv.skip(i as int).drop_first() =~= cv.skip(i + 1 as int));
        i = i + 1;
    }
    assert(cv.skip(i as int).len() == 0);
    Err(BackendError::ResolutionFailed { backend: d.name.clone(), checked: cands })
}

proof fn lemma_first_accepted_agree(cands: Seq<PathView>, siblings: Seq<Seq<char>>, fs1: Set<PathView>, fs2: Set<PathView>)
    requires
        forall|j: int| 0 <= j < cands.len() ==> fs1.contains(#[trigger] cands[j]) == fs2.contains(cands[j]),
        forall|j: int, k: int| 0 <= j < cands.len() && 0 <= k < siblings.len()
            ==> fs1.contains(#[trigger] sibling_of(cands[j], siblings[k])) == fs2.contains(sibling_of(cands[j], siblings[k])),
    ensures
        first_accepted(cands, siblings, fs1) == first_accepted(cands, siblings, fs2),
    decreases cands.len(),
{
    if cands.len() > 0 {
        assert(fs1.contains(cands[0]) == fs2.contains(cands[0]));
        assert forall|k: int| 0 <= k < siblings.len() implies
            fs1.contains(#[trigger] sibling_of(cands[0], siblings[k])) == fs2.contains(sibling_of(cands[0], siblings[k])) by {
            assert(fs1.contains(sibling_of(cands[0], siblings[k])) == fs2.contains(sibling_of(cands[0], siblings[k])));
        }
        let rest = cands.drop_first();
        assert forall|j: int| 0 <= j < rest.len() implies fs1.contains(#[trigger] rest[j]) == fs2.contains(rest[j]) by {
            assert(rest[j] == cands[j + 1]);
        }
        assert forall|j: int, k: int| 0 <= j < rest.len() && 0 <= k < siblings.len() implies
            fs1.contains(#[trigger] sibling_of(rest[j], siblings[k])) == fs2.contains(sibling_of(rest[j], siblings[k])) by {
            assert(rest[j] == cands[j + 1]);
        }
        lemma_first_accepted_agree(rest, siblings, fs1, fs2);
    }
}

/// Resolution is deterministic: two filesystem snapshots that agree on every
/// candidate path and on every sibling path a candidate requires resolve to
/// the same executable, or both fail. What exists elsewhere plays no part.
pub proof fn lemma_resolution_deterministic(anchor: PathView, d: BackendDescriptor, fs1: Set<PathView>, fs2: Set<PathView>)
    requires
        forall|j: int| 0 <= j < search_order(anchor, d).len()
            ==> fs1.contains(#[trigger] search_order(anchor, d)[j]) == fs2.contains(search_order(anchor, d)[j]),
        forall|j: int, k: int| 0 <= j < search_order(anchor, d).len() && 0 <= k < d.sibling_names().len()
            ==> fs1.contains(#[trigger] sibling_of(search_order(anchor, d)[j], d.sibling_names()[k]))
                == fs2.contains(sibling_of(search_order(anchor, d)[j], d.sibling_names()[k])),
    ensures
        resolution(anchor, d, fs1) == resolution(anchor, d, fs2),
{
    lemma_first_accepted_agree(search_order(anchor, d), d.sibling_names(), fs1, fs2);
}

proof fn lemma_sole_candidate(cands: Seq<PathView>, siblings: Seq<Seq<char>>, fs: Set<PathView>, c: PathView)
    requires
        cands.contains(c),
        accepted(c, siblings, fs),
        forall|j: int| 0 <= j < cands.len() && fs.contains(#[trigger] cands[j]) ==> cands[j] == c,
    ensures
        first_accepted(cands, siblings, fs) == Some(c),
    decreases cands.len(),
{
    if cands[0] != c {
        assert(!fs.contains(cands[0]));
        let rest = cands.drop_first();
        let i = choose|i: int| 0 <= i < cands.len() && cands[i] == c;
        assert(i > 0);
        assert(rest[i - 1] == c);
        assert forall|j: int| 0 <= j < rest.len() && fs.contains(#[trigger] rest[j]) implies rest[j] == c by {
            assert(rest[j] == cands[j + 1]);
        }
        lemma_sole_candidate(rest, siblings, fs, c);
    }
}

/// When exactly one candidate exists (a release layout, say, with no
/// development build beside it), and its required siblings exist too,
/// resolution picks it: absent candidates of higher preference are passed
/// over.
pub proof fn lemma_sole_existing_candidate_wins(anchor: PathView, d: BackendDescriptor, fs: Set<PathView>, c: PathView)
    requires
        search_order(anchor, d).contains(c),
        accepted(c, d.sibling_names(), fs),
        forall|j: int| 0 <= j < search_order(anchor, d).len() && fs.contains(#[trigger] search_order(anchor, d)[j])
            ==> search_order(anchor, d)[j] == c,
    ensures
        resolution(anchor, d, fs) == Some(c),
{
    lemma_sole_candidate(search_order(anchor, d), d.sibling_names(), fs, c);
}

} // verus!
