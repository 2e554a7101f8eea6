//! Filesystem paths as sequences of components.

use vstd::prelude::*;

verus! {

/// The mathematical value of a path: its components, in order.
pub type PathView = Seq<Seq<char>>;

/// The character sequences held by a sequence of strings.
pub open spec fn strs_view(v: Seq<String>) -> Seq<Seq<char>> {
    v.map_values(|s: String| s@)
}

/// Appending a string appends its characters to the view.
pub proof fn lemma_strs_push(v: Seq<String>, s: String)
    ensures
        strs_view(v.push(s)) == strs_view(v).push(s@),
{
    assert(strs_view(v.push(s)) =~= strs_view(v).push(s@));
}

/// A filesystem path, held as its components (a root or drive prefix is a
/// component of its own, as `std::path::Path::components` yields it).
#[derive(Clone, Debug)]
pub struct FsPath {
    pub parts: Vec<String>,
}

impl View for FsPath {
    type V = PathView;

    open spec fn view(&self) -> PathView {
        strs_view(self.parts@)
    }
}

/// Copies a vector of strings component by component.
pub fn copy_strings(v: &Vec<String>) -> (r: Vec<String>)
    ensures
        strs_view(r@) == strs_view(v@),
{
    let mut r: Vec<String> = Vec::new();
    let mut i: usize = 0;
    while i < v.len()
        invariant
            i <= v@.len(),
            strs_view(r@) == strs_view(v@).take(i as int),
        decreases v@.len() - i,
    {
        proof {
            lemma_strs_push(r@, v@[i as int]);
        }
        r.push(v[i].clone());
        i = i + 1;
        assert(strs_view(r@) =~= strs_view(v@).take(i as int));
    }
    assert(strs_view(v@).take(v@.len() as int) =~= strs_view(v@));
    r
}

impl FsPath {
    /// The path made of the given components.
    pub fn from_parts(parts: Vec<String>) -> (r: FsPath)
        ensures
            r@ == strs_view(parts@),
    {
        FsPath { parts }
    }

    /// The empty path.
    pub fn empty() -> (r: FsPath)
        ensures
            r@ == Seq::<Seq<char>>::empty(),
    {
        let r = FsPath { parts: Vec::new() };
        assert(r@ =~= Seq::<Seq<char>>::empty());
        r
    }

    /// The number of components.
    pub fn len(&self) -> (r: usize)
        ensures
            r == self@.len(),
    {
        self.parts.len()
    }

    /// A path equal to this one.
    pub fn duplicate(&self) -> (r: FsPath)
        ensures
            r@ == self@,
    {
        FsPath { parts: copy_strings(&self.parts) }
    }

    /// The path made of this one's first `n` components.
    pub fn prefix(&self, n: usize) -> (r: FsPath)
        requires
            n <= self@.len(),
        ensures
            r@ == self@.take(n as int),
    {
        let mut parts: Vec<String> = Vec::new();
        let mut i: usize = 0;
        while i < n
            invariant
                i <= n <= self@.len(),
                strs_view(parts@) == self@.take(i as int),
            decreases n - i,
        {
            proof {
                lemma_strs_push(parts@, self.parts@[i as int]);
            }
            parts.push(self.parts[i].clone());
            i = i + 1;
            assert(strs_view(parts@) =~= self@.take(i as int));
        }
        FsPath { parts }
    }

    /// The path with the components of `rel` appended.
    pub fn join(&self, rel: &Vec<String>) -> (r: FsPath)
        ensures
            r@ == self@ + strs_view(rel@),
    {
        let mut parts = copy_strings(&self.parts);
        let mut i: usize = 0;
        while i < rel.len()
            invariant
                i <= rel@.len(),
                strs_view(parts@) == self@ + strs_view(rel@).take(i as int),
            decreases rel@.len() - i,
        {
            proof {
                lemma_strs_push(parts@, rel@[i as int]);
            }
            parts.push(rel[i].clone());
            i = i + 1;
            assert(strs_view(parts@) =~= self@ + strs_view(rel@).take(i as int));
        }
        assert(strs_view(rel@).take(rel@.len() as int) =~= strs_view(rel@));
        FsPath { parts }
    }

    /// The path with one more component, `name`.
    pub fn child(&self, name: &str) -> (r: FsPath)
        ensures
            r@ == self@.push(name@),
    {
        let mut parts = copy_strings(&self.parts);
        parts.push(name.to_string());
        let r = FsPath { parts };
        assert(r@ =~= self@.push(name@));
        r
    }

    /// The directory holding this path: all components but the last. The
    /// empty path is its own parent.
    pub fn parent(&self) -> (r: FsPath)
        ensures
            r@ == parent_of(self@),
    {
        if self.parts.len() == 0 {
            self.duplicate()
        } else {
            self.prefix(self.parts.len() - 1)
        }
    }

    /// Whether the two paths have the same components.
    pub fn same_as(&self, other: &FsPath) -> (r: bool)
        ensures
            r == (self@ == other@),
    {
        if self.parts.len() != other.parts.len() {
            return false;
        }
        let mut i: usize = 0;
        while i < self.parts.len()
            invariant
                i <= self@.len(),
                self@.len() == other@.len(),
                self@.take(i as int) == other@.take(i as int),
            decreases self@.len() - i,
        {
            if self.parts[i] != other.parts[i] {
                assert(self@[i as int] != other@[i as int]);
                return false;
            }
            i = i + 1;
            assert(self@.take(i as int) =~= other@.take(i as int));
        }
        assert(self@ =~= self@.take(i as int));
        assert(other@ =~= other@.take(i as int));
        true
    }
}

/// All components of a path but the last; the empty path for the empty path.
pub open spec fn parent_of(p: PathView) -> PathView {
    if p.len() == 0 {
        p
    } else {
        p.drop_last()
    }
}

impl PartialEq for FsPath {
    fn eq(&self, other: &FsPath) -> (r: bool) {
        self.same_as(other)
    }
}

impl vstd::std_specs::cmp::PartialEqSpecImpl for FsPath {
    open spec fn obeys_eq_spec() -> bool {
        true
    }

    open spec fn eq_spec(&self, other: &FsPath) -> bool {
        self@ == other@
    }
}

impl Eq for FsPath {
}

/// Whether `p` is one of the paths in `files`.
pub fn contains_path(files: &Vec<FsPath>, p: &FsPath) -> (r: bool)
    ensures
        r == paths_view(files@).contains(p@),
{
    let mut i: usize = 0;
    while i < files.len()
        invariant
            i <= files@.len(),
            forall|j: int| 0 <= j < i ==> files@[j]@ != p@,
        decreases files@.len() - i,
    {
        if files[i].same_as(p) {
            assert(paths_view(files@)[i as int] == p@);
            return true;
        }
        i = i + 1;
    }
    assert forall|j: int| 0 <= j < paths_view(files@).len() implies paths_view(files@)[j] != p@ by {
        assert(files@[j]@ != p@);
    }
    false
}

/// The values of a sequence of paths.
pub open spec fn paths_view(v: Seq<FsPath>) -> Seq<PathView> {
    v.map_values(|p: FsPath| p@)
}

} // verus!
