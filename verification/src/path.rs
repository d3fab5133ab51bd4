//! Paths as a known place plus the components joined onto it.
//!
//! Where the places are on a machine is for the caller to find out: it holds
//! one real path for each [`PathRoot`] and joins the parts onto it in order.

use vstd::prelude::*;

verus! {

/// A place on disk that every path of the runtime starts from.
#[derive(Clone, Copy, Debug, PartialEq, Eq, Structural)]
pub enum PathRoot {
    /// The per-user directory for local application data.
    DataLocalDir,
    /// The running executable.
    Executable,
    /// The directory that holds the running executable.
    ExecutableDir,
    /// The current directory, `.`.
    CurrentDir,
    /// The helper executable of the application bundle (macOS).
    HelperApp,
    /// The CEF root as detection reported it.
    DetectedCefRoot,
    /// The CEF root after canonicalization.
    CefRoot,
    /// The cache directory that the host asked for.
    HostCacheDir,
    /// The profile directory derived from the profile name and the executable.
    ProfileDir,
}

/// A path: `root` joined with each of `parts` in turn.
#[derive(Debug, PartialEq, Eq)]
pub struct LayoutPath {
    pub root: PathRoot,
    pub parts: Vec<String>,
}

/// The mathematical value of a [`LayoutPath`].
#[verifier::ext_equal]
pub struct PathView {
    pub root: PathRoot,
    pub parts: Seq<Seq<char>>,
}

impl PathView {
    /// The path that is just `root`.
    pub open spec fn at(root: PathRoot) -> PathView {
        PathView { root, parts: Seq::empty() }
    }

    /// The path one component below this one.
    pub open spec fn join(self, part: Seq<char>) -> PathView {
        PathView { root: self.root, parts: self.parts.push(part) }
    }
}

/// The texts of a list of strings.
pub open spec fn texts(strings: Seq<String>) -> Seq<Seq<char>> {
    Seq::new(strings.len(), |i: int| strings[i]@)
}

impl View for LayoutPath {
    type V = PathView;

    open spec fn view(&self) -> PathView {
        PathView { root: self.root, parts: texts(self.parts@) }
    }
}

impl LayoutPath {
    /// The path that is just `root`.
    pub fn at(root: PathRoot) -> (path: LayoutPath)
        ensures
            path@ == PathView::at(root),
            path.root == root,
            path.parts@.len() == 0,
    {
        let path = LayoutPath { root, parts: Vec::new() };
        assert(path@ =~= PathView::at(root));
        path
    }

    /// This path with `part` joined onto it.
    pub fn join(&self, part: &str) -> (path: LayoutPath)
        ensures
            path@ == self@.join(part@),
            path.root == self.root,
            path.parts@.len() == self.parts@.len() + 1,
            path.parts@.last()@ == part@,
            forall|i: int|
                0 <= i < self.parts@.len() ==> (#[trigger] path.parts@[i])@ == self.parts@[i]@,
    {
        let mut path = self.clone();
        path.parts.push(part.to_owned());
        assert(path@ =~= self@.join(part@));
        path
    }
}

impl Clone for LayoutPath {
    fn clone(&self) -> (path: LayoutPath)
        ensures
            path@ == self@,
            path.root == self.root,
            path.parts@.len() == self.parts@.len(),
            forall|i: int|
                0 <= i < self.parts@.len() ==> (#[trigger] path.parts@[i])@ == self.parts@[i]@,
    {
        let mut parts: Vec<String> = Vec::new();
        let mut i: usize = 0;
        while i < self.parts.len()
            invariant
                i <= self.parts@.len(),
                parts@.len() == i,
                forall|j: int| 0 <= j < i ==> (#[trigger] parts@[j])@ == self.parts@[j]@,
            decreases self.parts@.len() - i,
        {
            parts.push(self.parts[i].clone());
            i += 1;
        }
        let path = LayoutPath { root: self.root, parts };
        assert(path@ =~= self@);
        path
    }
}

/// Joining goes one component further down, from the same place.
pub proof fn lemma_join_goes_one_down(path: PathView, part: Seq<char>, root: PathRoot)
    ensures
        path.join(part).root == path.root,
        path.join(part).parts.len() == path.parts.len() + 1,
        path.join(part).parts.last() == part,
        path.join(part).parts.drop_last() == path.parts,
        PathView::at(root).root == root,
        PathView::at(root).parts.len() == 0,
{
    assert(path.join(part).parts.drop_last() =~= path.parts);
}

/// Nothing of a path is lost in its mathematical value.
pub proof fn lemma_path_value_is_faithful(path: &LayoutPath)
    ensures
        path@.root == path.root,
        path@.parts.len() == path.parts@.len(),
        forall|i: int|
            0 <= i < path.parts@.len() ==> #[trigger] path@.parts[i] == path.parts@[i]@,
{
}

} // verus!
