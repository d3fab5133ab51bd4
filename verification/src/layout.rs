//! Where CEF installations live on disk.
//!
//! Managed installations stand below the user's data directory, one directory
//! per version. A bundled runtime stands beside the executable, at a place
//! that depends on the platform. Looking at the disk is left to the caller:
//! it probes the paths named here and hands back what it saw.

use crate::path::{LayoutPath, PathRoot, PathView};
use vstd::prelude::*;

verus! {

/// The operating systems that the runtime supports.
#[derive(Clone, Copy, Debug, PartialEq, Eq, Structural)]
pub enum Platform {
    Windows,
    Linux,
    MacOs,
}

/// The directory of all managed installations, in the mathematical model.
pub open spec fn install_root_view() -> PathView {
    PathView::at(PathRoot::DataLocalDir).join("kurogane"@).join("cef"@)
}

/// The directory of all managed installations.
pub fn install_root() -> (path: LayoutPath)
    ensures
        path@ == install_root_view(),
        path.root == PathRoot::DataLocalDir,
        path.parts@.len() == 2,
        path.parts@[0]@ == "kurogane"@,
        path.parts@[1]@ == "cef"@,
{
    LayoutPath::at(PathRoot::DataLocalDir).join("kurogane").join("cef")
}

/// The directory of the managed installation of `version`.
pub fn cef_install_dir(version: &str) -> (path: LayoutPath)
    ensures
        path@ == install_root_view().join(version@),
        path.root == PathRoot::DataLocalDir,
        path.parts@.len() == 3,
        path.parts@[0]@ == "kurogane"@,
        path.parts@[1]@ == "cef"@,
        path.parts@[2]@ == version@,
{
    install_root().join(version)
}

/// Resolves a versioned managed CEF installation if it exists locally.
///
/// `exists` says whether [`cef_install_dir`] of that version is there.
pub fn installed_cef_root(version: &str, exists: bool) -> (path: Option<LayoutPath>)
    ensures
        path is Some <==> exists,
        path matches Some(root) ==> root@ == install_root_view().join(version@),
        path matches Some(root) ==> {
            &&& root.root == PathRoot::DataLocalDir
            &&& root.parts@.len() == 3
            &&& root.parts@[0]@ == "kurogane"@
            &&& root.parts@[1]@ == "cef"@
            &&& root.parts@[2]@ == version@
        },
{
    let root = cef_install_dir(version);
    if exists {
        Some(root)
    } else {
        None
    }
}

/// A place where a bundled runtime may stand: it is at `root` if `probe` exists.
#[derive(Debug, PartialEq, Eq)]
pub struct BundleCandidate {
    pub root: LayoutPath,
    pub probe: LayoutPath,
}

/// The mathematical value of a [`BundleCandidate`].
#[verifier::ext_equal]
pub struct CandidateView {
    pub root: PathView,
    pub probe: PathView,
}

impl View for BundleCandidate {
    type V = CandidateView;

    open spec fn view(&self) -> CandidateView {
        CandidateView { root: self.root@, probe: self.probe@ }
    }
}

/// The candidates for a runtime bundled beside an executable in `dir`, in the
/// order in which they are tried.
pub open spec fn bundle_candidates_view(platform: Platform, dir: PathView) -> Seq<CandidateView> {
    match platform {
        // CEF is flattened next to the executable.
        Platform::Windows => seq![
            CandidateView { root: dir, probe: dir.join("libcef.dll"@) },
        ],
        // CEF lives in a subdirectory.
        Platform::Linux => seq![
            CandidateView { root: dir.join("cef"@), probe: dir.join("cef"@) },
        ],
        // The framework sits beside the executable, or in the Frameworks
        // directory of the bundle whose MacOS directory holds the executable.
        Platform::MacOs => seq![
            CandidateView {
                root: dir,
                probe: dir.join("Chromium Embedded Framework.framework"@),
            },
            CandidateView {
                root: dir.join(".."@).join("Frameworks"@),
                probe: dir.join(".."@).join("Frameworks"@).join(
                    "Chromium Embedded Framework.framework"@,
                ),
            },
        ],
    }
}

/// The values of a list of candidates.
pub open spec fn candidates_view(candidates: Seq<BundleCandidate>) -> Seq<CandidateView> {
    Seq::new(candidates.len(), |i: int| candidates[i]@)
}

/// The candidates for a runtime bundled beside an executable in `dir`, in the
/// order in which they are tried.
pub fn bundle_candidates(platform: Platform, dir: &LayoutPath) -> (candidates: Vec<BundleCandidate>)
    ensures
        candidates_view(candidates@) == bundle_candidates_view(platform, dir@),
{
    let mut candidates: Vec<BundleCandidate> = Vec::new();
    match platform {
        Platform::Windows => {
            candidates.push(BundleCandidate { root: dir.clone(), probe: dir.join("libcef.dll") });
        },
        Platform::Linux => {
            candidates.push(BundleCandidate { root: dir.join("cef"), probe: dir.join("cef") });
        },
        Platform::MacOs => {
            candidates.push(
                BundleCandidate {
                    root: dir.clone(),
                    probe: dir.join("Chromium Embedded Framework.framework"),
                },
            );
            let frameworks = dir.join("..").join("Frameworks");
            let probe = frameworks.join("Chromium Embedded Framework.framework");
            candidates.push(BundleCandidate { root: frameworks, probe });
        },
    }
    assert(candidates_view(candidates@) =~= bundle_candidates_view(platform, dir@));
    candidates
}

/// The answer `present` gives for candidate `i`; a candidate that was not
/// probed counts as absent.
pub open spec fn is_present(present: Seq<bool>, i: int) -> bool {
    0 <= i < present.len() && present[i]
}

/// Candidate `i` is the first of `n` that is present.
pub open spec fn is_first_present(present: Seq<bool>, n: nat, i: int) -> bool {
    &&& 0 <= i < n
    &&& is_present(present, i)
    &&& forall|j: int| 0 <= j < i ==> !is_present(present, j)
}

/// Resolves a CEF runtime bundled beside the executable in `dir`.
///
/// `present` holds, for the leading [`bundle_candidates`], whether the probe
/// exists. Probing may stop at the first that does.
pub fn bundled_cef_root_beside(platform: Platform, dir: &LayoutPath, present: &Vec<bool>) -> (path:
    Option<LayoutPath>)
    ensures
        match path {
            Some(root) => exists|i: int|
                #![trigger bundle_candidates_view(platform, dir@)[i]]
                is_first_present(present@, bundle_candidates_view(platform, dir@).len(), i) && root@
                    == bundle_candidates_view(platform, dir@)[i].root,
            None => forall|i: int|
                0 <= i < bundle_candidates_view(platform, dir@).len() ==> !#[trigger] is_present(
                    present@,
                    i,
                ),
        },
        path is Some <==> (present@.len() > 0 && present@[0]) || (platform == Platform::MacOs
            && present@.len() > 1 && present@[1]),
        path matches Some(root) ==> {
            &&& root@.root == dir@.root
            &&& match platform {
                Platform::Windows => root@.parts == dir@.parts,
                Platform::Linux => root@.parts == dir@.parts + seq!["cef"@],
                Platform::MacOs => root@.parts == if present@[0] {
                    dir@.parts
                } else {
                    dir@.parts + seq![".."@, "Frameworks"@]
                },
            }
        },
{
    let candidates = bundle_candidates(platform, dir);
    let ghost expected = bundle_candidates_view(platform, dir@);
    let mut i: usize = 0;
    while i < candidates.len()
        invariant
            i <= candidates@.len(),
            candidates_view(candidates@) == expected,
            expected == bundle_candidates_view(platform, dir@),
            forall|j: int| 0 <= j < i ==> !#[trigger] is_present(present@, j),
        decreases candidates@.len() - i,
    {
        if i < present.len() && present[i] {
            let root = candidates[i].root.clone();
            proof {
                assert(candidates_view(candidates@)[i as int] == candidates@[i as int]@);
                assert(expected[i as int].root == root@);
                assert(is_first_present(present@, expected.len(), i as int));
                lemma_bundle_places(platform, dir@);
                assert(i > 0 ==> !is_present(present@, 0));
                assert(platform == Platform::MacOs && i > 0 ==> root@.parts =~= dir@.parts + seq![
                    ".."@,
                    "Frameworks"@,
                ]);
                assert(platform == Platform::Linux ==> root@.parts =~= dir@.parts + seq!["cef"@]);
            }
            return Some(root);
        }
        i += 1;
    }
    proof {
        assert(candidates_view(candidates@).len() == candidates@.len());
        assert(!is_present(present@, 0));
        assert(platform == Platform::MacOs ==> !is_present(present@, 1));
    }
    None
}

/// The directory that bundled runtimes are looked for in: that of the
/// executable, or the current one when the executable's path has no parent.
pub fn bundle_search_dir(exe_has_parent: bool) -> (dir: LayoutPath)
    ensures
        dir@ == PathView::at(
            if exe_has_parent {
                PathRoot::ExecutableDir
            } else {
                PathRoot::CurrentDir
            },
        ),
{
    LayoutPath::at(
        if exe_has_parent {
            PathRoot::ExecutableDir
        } else {
            PathRoot::CurrentDir
        },
    )
}

/// Resolves the CEF runtime bundled with the running executable.
///
/// `exe` is what asking for the executable's path came to: an error, or
/// whether that path has a parent. `present` answers the candidates of
/// [`bundle_search_dir`].
pub fn bundled_cef_root(
    platform: Platform,
    exe: Result<bool, std::io::Error>,
    present: &Vec<bool>,
) -> (path: Result<Option<LayoutPath>, std::io::Error>)
    ensures
        match (exe, path) {
            (Err(asked), Err(failed)) => failed == asked,
            (Ok(_), Ok(None)) => forall|i: int|
                0 <= i < bundle_candidates_view(platform, search_dir_view(exe)).len()
                    ==> !#[trigger] is_present(present@, i),
            (Ok(_), Ok(Some(root))) => exists|i: int|
                #![trigger bundle_candidates_view(platform, search_dir_view(exe))[i]]
                is_first_present(
                    present@,
                    bundle_candidates_view(platform, search_dir_view(exe)).len(),
                    i,
                ) && root@ == bundle_candidates_view(platform, search_dir_view(exe))[i].root,
            _ => false,
        },
        path is Ok <==> exe is Ok,
        path matches Ok(found) ==> {
            &&& found is Some <==> (present@.len() > 0 && present@[0]) || (platform
                == Platform::MacOs && present@.len() > 1 && present@[1])
            &&& found matches Some(root) ==> {
                &&& root@.root == if exe->Ok_0 {
                    PathRoot::ExecutableDir
                } else {
                    PathRoot::CurrentDir
                }
                &&& match platform {
                    Platform::Windows => root@.parts.len() == 0,
                    Platform::Linux => root@.parts == seq!["cef"@],
                    Platform::MacOs => if present@[0] {
                        root@.parts.len() == 0
                    } else {
                        root@.parts == seq![".."@, "Frameworks"@]
                    },
                }
            }
        },
{
    match exe {
        Err(error) => Err(error),
        Ok(has_parent) => {
            let dir = bundle_search_dir(has_parent);
            Ok(bundled_cef_root_beside(platform, &dir, present))
        },
    }
}

/// The directory that [`bundled_cef_root`] searches.
pub open spec fn search_dir_view(exe: Result<bool, std::io::Error>) -> PathView {
    PathView::at(
        if exe == Ok::<bool, std::io::Error>(true) {
            PathRoot::ExecutableDir
        } else {
            PathRoot::CurrentDir
        },
    )
}

/// Where a bundled runtime is looked for. On Windows it is the directory of the
/// executable, on Linux the one named `cef` below it, and being there is enough;
/// on macOS it is the directory of the executable and then, from there, the
/// bundle's `Frameworks`, whichever first holds the framework.
pub proof fn lemma_bundle_places(platform: Platform, dir: PathView)
    ensures
        ({
            let places = bundle_candidates_view(platform, dir);
            let framework = "Chromium Embedded Framework.framework"@;
            &&& forall|i: int|
                0 <= i < places.len() ==> (#[trigger] places[i]).root.root == dir.root
                    && places[i].probe.root == dir.root
            &&& match platform {
                Platform::Windows => {
                    &&& places.len() == 1
                    &&& places[0].root.parts == dir.parts
                    &&& places[0].probe.parts == dir.parts.push("libcef.dll"@)
                },
                Platform::Linux => {
                    &&& places.len() == 1
                    &&& places[0].root.parts == dir.parts.push("cef"@)
                    &&& places[0].probe.parts == dir.parts.push("cef"@)
                },
                Platform::MacOs => {
                    &&& places.len() == 2
                    &&& places[0].root.parts == dir.parts
                    &&& places[0].probe.parts == dir.parts.push(framework)
                    &&& places[1].root.parts == dir.parts.push(".."@).push("Frameworks"@)
                    &&& places[1].probe.parts == dir.parts.push(".."@).push("Frameworks"@).push(
                        framework,
                    )
                },
            }
        }),
{
}

/// The first that is present is present, and nothing before it is.
pub proof fn lemma_first_present_is_first(present: Seq<bool>, n: nat, i: int, j: int)
    ensures
        is_first_present(present, n, i) ==> 0 <= i < n && i < present.len() && present[i],
        is_first_present(present, n, i) && 0 <= j < i ==> !present[j],
        0 <= j < n && j < present.len() && present[j] && is_first_present(present, n, i) ==> i <= j,
{
    if is_first_present(present, n, i) && 0 <= j < i {
        assert(!is_present(present, j));
    }
}

/// Nothing of a list of candidates is lost in its mathematical value.
pub proof fn lemma_candidates_value_is_faithful(candidates: Seq<BundleCandidate>, i: int)
    ensures
        candidates_view(candidates).len() == candidates.len(),
        0 <= i < candidates.len() ==> {
            &&& candidates_view(candidates)[i].root == candidates[i].root@
            &&& candidates_view(candidates)[i].probe == candidates[i].probe@
        },
{
}

/// Managed installations stand in `kurogane` and then `cef` below the user's
/// data directory, each in what its version names there.
pub proof fn lemma_installations_stand_together(version: Seq<char>)
    ensures
        install_root_view().root == PathRoot::DataLocalDir,
        install_root_view().parts == seq!["kurogane"@, "cef"@],
        install_root_view().join(version).root == PathRoot::DataLocalDir,
        install_root_view().join(version).parts == seq!["kurogane"@, "cef"@, version],
{
    assert(install_root_view().parts =~= seq!["kurogane"@, "cef"@]);
    assert(install_root_view().join(version).parts =~= seq!["kurogane"@, "cef"@, version]);
}

} // verus!
