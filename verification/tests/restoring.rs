//! The steps of a restore, and the copy of a directory.
use ktx_build_cache::cache::CachedBuild;
use ktx_build_cache::copy::{copy_directory, CopyReply, CopyRequest};
use ktx_build_cache::path::{Component, HostPath, Name};
use ktx_build_cache::restore::{Effect, RestoreStep};

fn path(text: &str) -> HostPath {
    let mut components = vec![Component::RootDir];
    for part in text.split('/').filter(|part| !part.is_empty()) {
        components.push(Component::Normal(Name::Text(part.to_owned())));
    }
    HostPath { components }
}

fn show(path: &HostPath) -> String {
    let mut text = String::new();
    for component in &path.components {
        if let Component::Normal(Name::Text(name)) = component {
            text.push('/');
            text.push_str(name);
        }
    }
    text
}

fn describe(effect: &Effect) -> String {
    match effect {
        Effect::RemoveTree(path) => format!("remove tree {}", show(path)),
        Effect::RemoveFile(path) => format!("remove file {}", show(path)),
        Effect::CopyTree(from, to) => format!("copy tree {} {}", show(from), show(to)),
        Effect::CheckDir(path) => format!("check {}", show(path)),
        Effect::CopyFile(from, to) => format!("copy file {} {}", show(from), show(to)),
    }
}

/// Runs a restore in which the effects with these descriptions fail.
fn run(failing: &[&str]) -> (Vec<String>, bool) {
    let cache = CachedBuild::from_package_dir(&path("/c/ktx2-rw-1"));
    let target = path("/t/out");
    let mut outcomes: Vec<bool> = Vec::new();
    let mut log: Vec<String> = Vec::new();
    loop {
        match cache.restore_to(&target, &outcomes) {
            RestoreStep::Perform(effect) => {
                let text = describe(&effect);
                outcomes.push(!failing.contains(&text.as_str()));
                log.push(text);
            }
            RestoreStep::Finished(restored) => return (log, restored),
        }
    }
}

const CLEAR: [&str; 3] = [
    "remove tree /t/out/KTX-Software-build",
    "remove tree /t/out/KTX-Software-4.4.0",
    "remove file /t/out/bindings.rs",
];

const LIB: &str =
    "copy tree /c/ktx2-rw-1/out/KTX-Software-build/lib /t/out/KTX-Software-build/lib";
const CHECK: &str = "check /c/ktx2-rw-1/out/KTX-Software-build/include";
const HEADERS: &str =
    "copy tree /c/ktx2-rw-1/out/KTX-Software-build/include /t/out/KTX-Software-build/include";
const BINDINGS: &str = "copy file /c/ktx2-rw-1/out/bindings.rs /t/out/bindings.rs";

#[test]
fn a_package_directory_holds_the_parts_of_a_build() {
    let cache = CachedBuild::from_package_dir(&path("/c/ktx2-rw/0123"));
    assert_eq!(show(&cache.ktx_build_dir), "/c/ktx2-rw/0123/out/KTX-Software-build");
    assert_eq!(show(&cache.ktx_source_dir), "/c/ktx2-rw/0123/out/KTX-Software-4.4.0");
    assert_eq!(show(&cache.bindings_file), "/c/ktx2-rw/0123/out/bindings.rs");
}

#[test]
fn a_restore_clears_and_copies() {
    let (log, restored) = run(&[]);
    let mut expected = CLEAR.to_vec();
    expected.extend([LIB, CHECK, HEADERS, BINDINGS]);
    assert_eq!(log, expected);
    assert!(restored);
}

#[test]
fn headers_that_are_missing_are_not_copied() {
    let (log, restored) = run(&[CHECK]);
    let mut expected = CLEAR.to_vec();
    expected.extend([LIB, CHECK, BINDINGS]);
    assert_eq!(log, expected);
    assert!(restored);
}

#[test]
fn a_target_without_stale_parts_is_restored_to_all_the_same() {
    let (_, restored) = run(&CLEAR);
    assert!(restored);
}

#[test]
fn headers_that_cannot_be_copied_are_a_failure() {
    let (log, restored) = run(&[HEADERS]);
    assert_eq!(log[log.len() - 3..], CLEAR);
    assert!(!restored);
}

#[test]
fn a_failed_copy_is_rolled_back_after_the_others() {
    for failing in [LIB, HEADERS, BINDINGS] {
        let (log, restored) = run(&[failing]);
        let mut expected = CLEAR.to_vec();
        expected.extend([LIB, CHECK, HEADERS, BINDINGS]);
        expected.extend(CLEAR);
        assert_eq!(log, expected);
        assert!(!restored);
    }
    let (log, restored) = run(&[LIB, CHECK]);
    let mut expected = CLEAR.to_vec();
    expected.extend([LIB, CHECK, BINDINGS]);
    expected.extend(CLEAR);
    assert_eq!(log, expected);
    assert!(!restored);
}

#[test]
fn a_restore_has_no_more_than_ten_effects() {
    let cache = CachedBuild::from_package_dir(&path("/c/ktx2-rw-1"));
    for outcome in [true, false] {
        let outcomes = vec![outcome; 10];
        match cache.restore_to(&path("/t/out"), &outcomes) {
            RestoreStep::Finished(restored) => assert_eq!(restored, outcome),
            RestoreStep::Perform(_) => panic!(),
        }
    }
}

const TREE: [(&str, &[&str]); 3] = [
    ("/s", &["a.h", "sub", "socket", "z.h"]),
    ("/s/sub", &["deep", "b.h"]),
    ("/s/sub/deep", &["c.h"]),
];

fn names(directory: &str) -> Option<Vec<Name>> {
    TREE.iter()
        .find(|(path, _)| *path == directory)
        .map(|(_, names)| names.iter().map(|name| Name::Text((*name).to_owned())).collect())
}

fn ask(request: &CopyRequest) -> (String, CopyReply) {
    match request {
        CopyRequest::CreateDir(path) => (format!("create {}", show(path)), CopyReply::Flag(true)),
        CopyRequest::ReadDir(path) => {
            (format!("list {}", show(path)), CopyReply::Names(names(&show(path))))
        }
        CopyRequest::IsDir(path) => (
            format!("dir? {}", show(path)),
            CopyReply::Flag(names(&show(path)).is_some()),
        ),
        CopyRequest::IsFile(path) => (
            format!("file? {}", show(path)),
            CopyReply::Flag(show(path).ends_with(".h")),
        ),
        CopyRequest::CopyFile(from, to) => {
            (format!("copy {} {}", show(from), show(to)), CopyReply::Flag(true))
        }
    }
}

/// Copies the tree at `/s` to `/d`; the request with this description is refused.
fn copy(refused: &str) -> (Vec<String>, Option<bool>) {
    let mut walk = copy_directory(&path("/s"), &path("/d"));
    let mut log: Vec<String> = Vec::new();
    assert_eq!(walk.outcome(), None);
    while let Some(request) = walk.request() {
        let (text, reply) = ask(&request);
        if text == refused {
            walk.advance(&CopyReply::Names(None));
        } else {
            walk.advance(&reply);
        }
        log.push(text);
    }
    (log, walk.outcome())
}

#[test]
fn a_directory_is_copied_depth_first_and_in_order() {
    let (log, outcome) = copy("");
    assert_eq!(
        log,
        vec![
            "create /d",
            "list /s",
            "dir? /s/a.h",
            "file? /s/a.h",
            "copy /s/a.h /d/a.h",
            "dir? /s/sub",
            "create /d/sub",
            "list /s/sub",
            "dir? /s/sub/deep",
            "create /d/sub/deep",
            "list /s/sub/deep",
            "dir? /s/sub/deep/c.h",
            "file? /s/sub/deep/c.h",
            "copy /s/sub/deep/c.h /d/sub/deep/c.h",
            "dir? /s/sub/b.h",
            "file? /s/sub/b.h",
            "copy /s/sub/b.h /d/sub/b.h",
            "dir? /s/socket",
            "file? /s/socket",
            "dir? /s/z.h",
            "file? /s/z.h",
            "copy /s/z.h /d/z.h",
        ]
    );
    assert_eq!(outcome, Some(true));
}

#[test]
fn a_walk_stops_where_it_is_refused() {
    for (refused, requests) in [
        ("create /d", 1),
        ("list /s", 2),
        ("copy /s/a.h /d/a.h", 5),
        ("create /d/sub/deep", 10),
        ("list /s/sub/deep", 11),
        ("copy /s/z.h /d/z.h", 22),
    ] {
        let (log, outcome) = copy(refused);
        assert_eq!(log.len(), requests);
        assert_eq!(log.last().map(String::as_str), Some(refused));
        assert_eq!(outcome, Some(false));
    }
}

#[test]
fn what_is_neither_file_nor_directory_is_passed_over() {
    let (log, outcome) = copy("file? /s/z.h");
    assert_eq!(log.last().map(String::as_str), Some("file? /s/z.h"));
    assert_eq!(outcome, Some(true));
}

#[test]
fn an_empty_directory_is_made() {
    let mut walk = copy_directory(&path("/s/none"), &path("/d"));
    walk.advance(&CopyReply::Flag(true));
    walk.advance(&CopyReply::Names(Some(Vec::new())));
    assert!(walk.request().is_none());
    assert_eq!(walk.outcome(), Some(true));
    walk.advance(&CopyReply::Flag(false));
    assert_eq!(walk.outcome(), Some(true));
}

#[test]
fn only_the_copy_of_a_directory_is_a_walk() {
    let walk = Effect::CopyTree(path("/s"), path("/d")).copy_walk();
    match walk.and_then(|walk| walk.request()) {
        Some(CopyRequest::CreateDir(made)) => assert_eq!(show(&made), "/d"),
        _ => panic!(),
    }
    assert!(Effect::CopyFile(path("/s"), path("/d")).copy_walk().is_none());
    assert!(Effect::RemoveTree(path("/d")).copy_walk().is_none());
    assert!(Effect::RemoveFile(path("/d")).copy_walk().is_none());
    assert!(Effect::CheckDir(path("/d")).copy_walk().is_none());
}
