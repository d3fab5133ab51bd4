use std::collections::BTreeMap;

use kurogane::copy::{copy_dir, CopyPhase, CopyReply};
use kurogane::layout::{
    bundle_candidates, bundle_search_dir, bundled_cef_root, bundled_cef_root_beside,
    cef_install_dir, install_root, installed_cef_root, Platform,
};
use kurogane::path::{LayoutPath, PathRoot};

const FRAMEWORK: &str = "Chromium Embedded Framework.framework";

/// A stand-in for the root of a scratch directory.
fn scratch() -> LayoutPath {
    LayoutPath::at(PathRoot::CurrentDir)
}

/// `path` with every `..` resolved.
fn resolved(path: &LayoutPath) -> Vec<String> {
    let mut parts: Vec<String> = Vec::new();
    for part in &path.parts {
        if part == ".." {
            parts.pop();
        } else {
            parts.push(part.clone());
        }
    }
    parts
}

/// Looks for a bundle beside `dir` on a disk that holds `existing`.
fn search(platform: Platform, dir: &LayoutPath, existing: &[LayoutPath]) -> Option<LayoutPath> {
    let mut present: Vec<bool> = Vec::new();
    for candidate in bundle_candidates(platform, dir) {
        let found = existing.iter().any(|p| resolved(p) == resolved(&candidate.probe));
        present.push(found);
        if found {
            break;
        }
    }
    bundled_cef_root_beside(platform, dir, &present)
}

fn parts(path: &LayoutPath) -> Vec<&str> {
    path.parts.iter().map(|p| p.as_str()).collect()
}

#[test]
fn framework_beside_the_executable_is_found() {
    let dir = scratch();
    let existing = [dir.join(FRAMEWORK)];

    assert_eq!(search(Platform::MacOs, &dir, &existing), Some(dir.clone()));
}

#[test]
fn framework_in_the_bundle_frameworks_dir_is_found() {
    let dir = scratch();
    let contents = dir.join("App.app").join("Contents");
    let exe_dir = contents.join("MacOS");
    let frameworks = contents.join("Frameworks");
    let existing = [frameworks.join(FRAMEWORK)];

    assert_eq!(
        search(Platform::MacOs, &exe_dir, &existing),
        Some(exe_dir.join("..").join("Frameworks"))
    );
}

#[test]
fn no_framework_means_no_bundle() {
    let dir = scratch();

    assert_eq!(search(Platform::MacOs, &dir.join("MacOS"), &[]), None);
}

#[test]
fn helper_in_the_frameworks_dir_finds_the_framework_beside_itself() {
    let frameworks = scratch().join("App.app").join("Contents").join("Frameworks");
    let existing = [frameworks.join(FRAMEWORK)];

    assert_eq!(search(Platform::MacOs, &frameworks, &existing), Some(frameworks.clone()));
}

#[test]
fn framework_beside_the_executable_comes_first() {
    let exe_dir = scratch().join("Contents").join("MacOS");
    let existing = [
        exe_dir.join(FRAMEWORK),
        scratch().join("Contents").join("Frameworks").join(FRAMEWORK),
    ];

    assert_eq!(search(Platform::MacOs, &exe_dir, &existing), Some(exe_dir.clone()));
}

#[test]
fn linux_bundle_is_the_cef_subdirectory() {
    let dir = scratch();

    assert_eq!(search(Platform::Linux, &dir, &[dir.join("cef")]), Some(dir.join("cef")));
    assert_eq!(search(Platform::Linux, &dir, &[dir.join("libcef.dll")]), None);
}

#[test]
fn windows_bundle_is_flat() {
    let dir = scratch();

    assert_eq!(search(Platform::Windows, &dir, &[dir.join("libcef.dll")]), Some(dir.clone()));
    assert_eq!(search(Platform::Windows, &dir, &[dir.join("cef")]), None);
}

#[test]
fn candidates_that_were_not_probed_count_as_absent() {
    let dir = scratch();

    assert_eq!(bundled_cef_root_beside(Platform::Linux, &dir, &vec![]), None);
    assert_eq!(bundled_cef_root_beside(Platform::MacOs, &dir, &vec![false]), None);
}

#[test]
fn bundled_root_is_searched_from_the_executable() {
    let found = bundled_cef_root(Platform::Linux, Ok(true), &vec![true]).unwrap().unwrap();
    assert_eq!(found, LayoutPath::at(PathRoot::ExecutableDir).join("cef"));

    let found = bundled_cef_root(Platform::Linux, Ok(false), &vec![true]).unwrap().unwrap();
    assert_eq!(found, LayoutPath::at(PathRoot::CurrentDir).join("cef"));

    assert!(bundled_cef_root(Platform::Linux, Ok(true), &vec![false]).unwrap().is_none());

    let error = std::io::Error::from(std::io::ErrorKind::NotFound);
    let failed = bundled_cef_root(Platform::Linux, Err(error), &vec![true]).unwrap_err();
    assert_eq!(failed.kind(), std::io::ErrorKind::NotFound);

    assert_eq!(bundle_search_dir(true), LayoutPath::at(PathRoot::ExecutableDir));
    assert_eq!(bundle_search_dir(false), LayoutPath::at(PathRoot::CurrentDir));
}

#[test]
fn managed_installations_stand_below_the_data_directory() {
    let root = install_root();
    assert_eq!(root.root, PathRoot::DataLocalDir);
    assert_eq!(parts(&root), ["kurogane", "cef"]);

    let dir = cef_install_dir("148.0.1");
    assert_eq!(dir.root, PathRoot::DataLocalDir);
    assert_eq!(parts(&dir), ["kurogane", "cef", "148.0.1"]);
}

#[test]
fn installation_resolves_only_where_it_exists() {
    assert_eq!(installed_cef_root("148.0.1", true), Some(cef_install_dir("148.0.1")));
    assert_eq!(installed_cef_root("148.0.1", false), None);
}

#[test]
fn versions_have_directories_of_their_own() {
    assert_ne!(cef_install_dir("148.0.1"), cef_install_dir("148.0.2"));
}

/// A directory tree to copy.
enum Tree {
    File,
    Dir(Vec<(&'static str, Tree)>),
}

fn node<'a>(tree: &'a Tree, rel: &[&'static str]) -> &'a Tree {
    let mut at = tree;
    for name in rel {
        match at {
            Tree::Dir(entries) => at = &entries.iter().find(|(n, _)| n == name).unwrap().1,
            Tree::File => panic!("a file has no entries"),
        }
    }
    at
}

fn sample() -> Tree {
    Tree::Dir(vec![
        ("a.txt", Tree::File),
        ("sub", Tree::Dir(vec![("b.txt", Tree::File), ("empty", Tree::Dir(vec![]))])),
        ("c.txt", Tree::File),
    ])
}

/// What stands on the target side: a directory, or a file and what it holds.
type Disk = BTreeMap<String, Option<String>>;

/// Copies `tree` onto `disk` and notes down what it does there.
fn copy_onto(tree: &Tree, disk: &mut Disk, log: &mut Vec<String>) -> std::io::Result<()> {
    let mut copy = copy_dir::<&'static str>();
    let mut positions: Vec<usize> = Vec::new();
    loop {
        let path = copy.rel.join("/");
        let reply = match copy.phase {
            CopyPhase::CreateDir => {
                log.push(format!("mkdir {}", path));
                if matches!(disk.get(&path), Some(Some(_))) {
                    CopyReply::Created(Err(failure()))
                } else {
                    disk.insert(path, None);
                    CopyReply::Created(Ok(()))
                }
            }
            CopyPhase::OpenDir => {
                positions.push(0);
                CopyReply::Opened(Ok(()))
            }
            CopyPhase::NextEntry => match node(tree, &copy.rel) {
                Tree::Dir(entries) => {
                    let at = positions.last_mut().unwrap();
                    if *at < entries.len() {
                        *at += 1;
                        CopyReply::Entry(Some(Ok(entries[*at - 1].0)))
                    } else {
                        positions.pop();
                        CopyReply::Entry(None)
                    }
                }
                Tree::File => panic!("a listing of a file"),
            },
            CopyPhase::TestEntry => {
                CopyReply::IsDir(matches!(node(tree, &copy.rel), Tree::Dir(_)))
            }
            CopyPhase::CopyEntry => {
                log.push(format!("copy {}", path));
                if matches!(disk.get(&path), Some(None)) {
                    CopyReply::Copied(Err(failure()))
                } else {
                    let text = format!("text of {}", path);
                    disk.insert(path, Some(text));
                    CopyReply::Copied(Ok(()))
                }
            }
            CopyPhase::Finished => panic!("went on after the end"),
        };
        if let Some(outcome) = copy.step(reply) {
            return outcome;
        }
    }
}

#[test]
fn copying_creates_directories_before_their_entries() {
    let mut log: Vec<String> = Vec::new();
    assert!(copy_onto(&sample(), &mut Disk::new(), &mut log).is_ok());
    assert_eq!(
        log,
        ["mkdir ", "copy a.txt", "mkdir sub", "copy sub/b.txt", "mkdir sub/empty", "copy c.txt"]
    );
}

#[test]
fn copying_again_changes_nothing() {
    let mut disk = Disk::new();
    disk.insert("kept.txt".to_string(), Some("kept".to_string()));
    let mut log: Vec<String> = Vec::new();
    assert!(copy_onto(&sample(), &mut disk, &mut log).is_ok());
    assert_eq!(disk.len(), 7);
    assert_eq!(disk["sub/b.txt"], Some("text of sub/b.txt".to_string()));
    assert_eq!(disk["sub/empty"], None);
    assert_eq!(disk["kept.txt"], Some("kept".to_string()));

    let copied = disk.clone();
    let mut again: Vec<String> = Vec::new();
    assert!(copy_onto(&sample(), &mut disk, &mut again).is_ok());
    assert_eq!(again, log);
    assert_eq!(disk, copied);
}

#[test]
fn copying_fails_where_a_file_is_in_the_way() {
    let mut disk = Disk::new();
    disk.insert("sub".to_string(), Some("in the way".to_string()));
    let mut log: Vec<String> = Vec::new();
    assert!(copy_onto(&sample(), &mut disk, &mut log).is_err());
    assert_eq!(log, ["mkdir ", "copy a.txt", "mkdir sub"]);
}

fn failure() -> std::io::Error {
    std::io::Error::from(std::io::ErrorKind::PermissionDenied)
}

#[test]
fn copying_stops_at_the_first_error() {
    let mut copy = copy_dir::<String>();
    let outcome = copy.step(CopyReply::Created(Err(failure()))).unwrap();
    assert_eq!(outcome.unwrap_err().kind(), std::io::ErrorKind::PermissionDenied);
    assert_eq!(copy.phase, CopyPhase::Finished);
    assert!(copy.step(CopyReply::Created(Ok(()))).is_none());
    assert_eq!(copy.phase, CopyPhase::Finished);

    let mut copy = copy_dir::<String>();
    assert!(copy.step(CopyReply::Created(Ok(()))).is_none());
    assert!(copy.step(CopyReply::Opened(Err(failure()))).unwrap().is_err());

    let mut copy = copy_dir::<String>();
    assert!(copy.step(CopyReply::Created(Ok(()))).is_none());
    assert!(copy.step(CopyReply::Opened(Ok(()))).is_none());
    assert!(copy.step(CopyReply::Entry(Some(Err(failure())))).unwrap().is_err());

    let mut copy = copy_dir::<String>();
    assert!(copy.step(CopyReply::Created(Ok(()))).is_none());
    assert!(copy.step(CopyReply::Opened(Ok(()))).is_none());
    assert!(copy.step(CopyReply::Entry(Some(Ok("f".to_string())))).is_none());
    assert!(copy.step(CopyReply::IsDir(false)).is_none());
    assert_eq!(copy.rel, ["f"]);
    assert!(copy.step(CopyReply::Copied(Err(failure()))).unwrap().is_err());
}

#[test]
fn copying_ignores_replies_to_other_questions() {
    let mut copy = copy_dir::<String>();
    assert!(copy.step(CopyReply::IsDir(true)).is_none());
    assert_eq!(copy.phase, CopyPhase::CreateDir);
}
