//! The search for a build on a host that exists in memory only.
use std::collections::{BTreeMap, BTreeSet};

use ktx_build_cache::cache::{has_valid_target_library, is_valid_non_empty_file, CachedBuild};
use ktx_build_cache::context::BuildContext;
use ktx_build_cache::copy::{CopyReply, CopyRequest, CopyWalk};
use ktx_build_cache::environment::BuildEnv;
use ktx_build_cache::git::{
    find_git_root, find_sibling_worktrees, find_worktrees_from_filesystem,
};
use ktx_build_cache::observe::{Answer, Observations, Progress, Query};
use ktx_build_cache::path::{Component, HostPath, Name};
use ktx_build_cache::restore::Effect;
use ktx_build_cache::reuse::{find_cached_build, try_reuse_cached_build, ReuseStep};
use ktx_build_cache::search::{is_candidate_package, is_same_path, search_cache_in_directory};
use ktx_build_cache::worktree::{find_target_directories, search_cache_in_worktrees};

fn path(text: &str) -> HostPath {
    let mut components: Vec<Component> = Vec::new();
    if text.starts_with('/') {
        components.push(Component::RootDir);
    }
    for part in text.split('/') {
        match part {
            "" => {}
            ".." => components.push(Component::ParentDir),
            name => components.push(Component::Normal(Name::Text(name.to_owned()))),
        }
    }
    HostPath { components }
}

fn show(path: &HostPath) -> String {
    let mut text = String::new();
    for component in &path.components {
        let part = match component {
            Component::RootDir => "/".to_owned(),
            Component::ParentDir => "..".to_owned(),
            Component::Normal(Name::Text(name)) => name.clone(),
            other => format!("{:?}", other),
        };
        if !text.is_empty() && !text.ends_with('/') {
            text.push('/');
        }
        text.push_str(&part);
    }
    text
}

fn shown(paths: &[HostPath]) -> Vec<String> {
    paths.iter().map(show).collect()
}

#[derive(Default)]
struct Host {
    dirs: BTreeSet<String>,
    files: BTreeMap<String, String>,
    locked: BTreeSet<String>,
    links: BTreeMap<String, String>,
    git: Option<Vec<u8>>,
    asked: Vec<String>,
}

impl Host {
    fn dir(&mut self, text: &str) {
        let mut at = String::new();
        for part in text.split('/').filter(|part| !part.is_empty()) {
            at.push('/');
            at.push_str(part);
            self.dirs.insert(at.clone());
        }
    }

    fn file(&mut self, text: &str, content: &str) {
        let cut = text.rfind('/').unwrap();
        self.dir(&text[..cut]);
        self.files.insert(text.to_owned(), content.to_owned());
    }

    /// A complete build for Linux in the package directory.
    fn build(&mut self, package: &str) {
        self.file(&format!("{}/out/KTX-Software-build/lib/libktx.a", package), "archive");
        self.file(&format!("{}/out/KTX-Software-4.4.0/include/ktx.h", package), "header");
        self.file(&format!("{}/out/bindings.rs", package), "bindings");
    }

    fn names(&self, directory: &str) -> Option<Vec<Name>> {
        if !self.dirs.contains(directory) {
            return None;
        }
        let prefix = format!("{}/", directory);
        let mut names: BTreeSet<String> = BTreeSet::new();
        for entry in self.dirs.iter().chain(self.files.keys()) {
            if let Some(rest) = entry.strip_prefix(&prefix) {
                if !rest.contains('/') {
                    names.insert(rest.to_owned());
                }
            }
        }
        Some(names.into_iter().map(Name::Text).collect())
    }

    /// The place that a path leads to, with every `..` followed.
    fn place(&self, path: &HostPath) -> String {
        let mut at = String::new();
        for part in show(path).split('/').filter(|part| !part.is_empty()) {
            if part == ".." {
                let cut = at.rfind('/').unwrap_or(0);
                at.truncate(cut);
            } else {
                at.push('/');
                at.push_str(part);
            }
        }
        self.links.get(&at).cloned().unwrap_or(at)
    }

    fn answer(&mut self, query: &Query) -> Answer {
        let (kind, answer) = match query {
            Query::IsDir(p) => ("dir", Answer::Flag(self.dirs.contains(&self.place(p)))),
            Query::IsFile(p) => ("file", Answer::Flag(self.files.contains_key(&self.place(p)))),
            Query::Exists(p) => {
                let at = self.place(p);
                let known = self.files.contains_key(&at) || self.dirs.contains(&at);
                ("exists", Answer::Flag(known))
            }
            Query::Size(p) => {
                let file = self.files.get(&self.place(p));
                ("size", Answer::Size(file.map(|content| content.len() as u64)))
            }
            Query::CanOpen(p) => {
                let at = self.place(p);
                let open = self.files.contains_key(&at) && !self.locked.contains(&at);
                ("open", Answer::Flag(open))
            }
            Query::Entries(p) => ("list", Answer::Names(self.names(&self.place(p)))),
            Query::Content(p) => ("read", Answer::Text(self.files.get(&self.place(p)).cloned())),
            Query::Canonical(p) => {
                let at = self.place(p);
                let known = self.dirs.contains(&at) || self.files.contains_key(&at);
                ("canonical", Answer::Path(if known { Some(path(&at)) } else { None }))
            }
            Query::Display(p) => ("display", Answer::Text(Some(show(p)))),
            Query::Resolve(base, text) => {
                let joined = if text.starts_with('/') || base.components.is_empty() {
                    path(text)
                } else {
                    path(&format!("{}/{}", show(base), text))
                };
                ("resolve", Answer::Path(Some(joined)))
            }
            Query::Worktrees(_) => ("git", Answer::Output(self.git.clone())),
        };
        let about = match query {
            Query::IsDir(p)
            | Query::IsFile(p)
            | Query::Exists(p)
            | Query::Size(p)
            | Query::CanOpen(p)
            | Query::Entries(p)
            | Query::Content(p)
            | Query::Canonical(p)
            | Query::Display(p)
            | Query::Resolve(p, _)
            | Query::Worktrees(p) => show(p),
        };
        self.asked.push(format!("{} {}", kind, about));
        answer
    }

    fn remove(&mut self, text: &str) -> bool {
        let below = format!("{}/", text);
        let before = self.dirs.len() + self.files.len();
        self.dirs.retain(|path| path != text && !path.starts_with(&below));
        self.files.retain(|path, _| path != text && !path.starts_with(&below));
        self.dirs.len() + self.files.len() < before
    }

    fn copy(&mut self, from: &str, to: &str) -> bool {
        match self.files.get(from).cloned() {
            Some(content) if !self.locked.contains(from) => {
                self.files.insert(to.to_owned(), content);
                true
            }
            _ => false,
        }
    }

    fn run(&mut self, mut walk: CopyWalk) -> bool {
        while let Some(request) = walk.request() {
            let reply = match &request {
                CopyRequest::CreateDir(p) => {
                    self.dir(&show(p));
                    CopyReply::Flag(true)
                }
                CopyRequest::ReadDir(p) => CopyReply::Names(self.names(&show(p))),
                CopyRequest::IsDir(p) => CopyReply::Flag(self.dirs.contains(&show(p))),
                CopyRequest::IsFile(p) => CopyReply::Flag(self.files.contains_key(&show(p))),
                CopyRequest::CopyFile(from, to) => {
                    CopyReply::Flag(self.copy(&show(from), &show(to)))
                }
            };
            walk.advance(&reply);
        }
        walk.outcome() == Some(true)
    }

    fn perform(&mut self, effect: &Effect) -> bool {
        match effect {
            Effect::RemoveTree(p) => self.remove(&show(p)),
            Effect::RemoveFile(p) => self.remove(&show(p)),
            Effect::CopyTree(_, _) => effect.copy_walk().is_some_and(|walk| self.run(walk)),
            Effect::CheckDir(p) => self.dirs.contains(&show(p)),
            Effect::CopyFile(from, to) => self.copy(&show(from), &show(to)),
        }
    }

    /// Everything at and below a path.
    fn listing(&self, text: &str) -> Vec<String> {
        let below = format!("{}/", text);
        let all = self.dirs.iter().chain(self.files.keys());
        let mut found: Vec<String> =
            all.filter(|path| path.as_str() == text || path.starts_with(&below)).cloned().collect();
        found.sort();
        found
    }

    fn decide<T>(&mut self, decide: impl Fn(&Observations) -> Progress<T>) -> T {
        let mut seen = Observations::new();
        loop {
            match decide(&seen) {
                Progress::Done(value) => return value,
                Progress::Need(query) => {
                    assert!(seen.answer(&query).is_none());
                    let answer = self.answer(&query);
                    seen.record(query, answer);
                }
            }
        }
    }

    fn find(&mut self, env: &BuildEnv, out_dir: &str) -> Option<String> {
        let out_dir = path(out_dir);
        self.decide(|seen| find_cached_build(seen, env, &out_dir))
            .map(|cache| show(&cache.ktx_build_dir))
    }

    fn search(&mut self, root: &str, out_dir: &str) -> Option<String> {
        let (root, out_dir, env) = (path(root), path(out_dir), linux());
        self.decide(|seen| search_cache_in_directory(seen, &env, &root, &out_dir))
            .map(|cache| show(&cache.ktx_build_dir))
    }

    fn siblings(&mut self, root: &str) -> Vec<String> {
        let root = path(root);
        shown(&self.decide(|seen| find_sibling_worktrees(seen, false, &root)))
    }

    fn recorded(&mut self, root: &str) -> Vec<String> {
        let root = path(root);
        shown(&self.decide(|seen| find_worktrees_from_filesystem(seen, &root)))
    }

    fn is_valid(&mut self, os: &str, package: &str) -> bool {
        let cache = CachedBuild::from_package_dir(&path(package));
        self.decide(|seen| cache.validate(seen, os))
    }
}

fn linux() -> BuildEnv {
    BuildEnv {
        no_cache_reuse: None,
        no_worktree_cache: None,
        target: None,
        target_os: Some("linux".to_owned()),
        windows: false,
    }
}

fn for_target(target: &str) -> BuildEnv {
    let mut env = linux();
    env.target = Some(target.to_owned());
    env
}

const OUT: &str = "/w/target/debug/build/ktx2-rw-own/out";

fn build_dir(package: &str) -> Option<String> {
    Some(format!("{}/out/KTX-Software-build", package))
}

#[test]
fn a_file_is_valid_if_it_is_regular_not_empty_and_readable() {
    let mut host = Host::default();
    host.file("/x/full", "x");
    host.file("/x/empty", "");
    host.file("/x/locked", "x");
    host.locked.insert("/x/locked".to_owned());
    for (name, valid, queries) in [
        ("/x/full", true, 3),
        ("/x/empty", false, 2),
        ("/x/locked", false, 3),
        ("/x/none", false, 1),
        ("/x", false, 1),
    ] {
        let file = path(name);
        host.asked.clear();
        assert_eq!(host.decide(|seen| is_valid_non_empty_file(seen, &file)), valid);
        assert_eq!(host.asked.len(), queries);
    }
}

#[test]
fn each_system_has_its_libraries() {
    for (os, name, valid) in [
        ("windows", "ktx.lib", true),
        ("windows", "libktx.a", true),
        ("windows", "libktx.so", false),
        ("windows", "libktx.dylib", false),
        ("macos", "libktx.a", true),
        ("macos", "libktx.dylib", true),
        ("macos", "ktx.framework", true),
        ("macos", "libktx.so", false),
        ("ios", "ktx.framework", true),
        ("ios", "ktx.lib", false),
        ("linux", "libktx.a", true),
        ("linux", "libktx.so", true),
        ("linux", "ktx.lib", false),
        ("android", "libktx.so", true),
        ("freebsd", "libktx.dylib", false),
        ("", "libktx.a", true),
        ("Windows", "ktx.lib", false),
    ] {
        let mut host = Host::default();
        host.file(&format!("/lib/{}", name), "x");
        let lib_dir = path("/lib");
        let found = host.decide(|seen| has_valid_target_library(seen, os, &lib_dir));
        assert_eq!(found, valid, "{} {}", os, name);
    }
}

#[test]
fn a_framework_may_be_a_directory_and_the_other_libraries_may_not() {
    for (os, name, valid) in
        [("macos", "ktx.framework", true), ("macos", "libktx.a", false), ("linux", "libktx.so", false)]
    {
        let mut host = Host::default();
        host.file(&format!("/lib/{}/ktx", name), "x");
        let lib_dir = path("/lib");
        assert_eq!(host.decide(|seen| has_valid_target_library(seen, os, &lib_dir)), valid);
    }
}

#[test]
fn an_empty_framework_is_no_library() {
    for os in ["macos", "ios"] {
        let lib_dir = path("/lib");
        let mut host = Host::default();
        host.file("/lib/ktx.framework", "");
        assert!(!host.decide(|seen| has_valid_target_library(seen, os, &lib_dir)));
        let mut host = Host::default();
        host.dir("/lib/ktx.framework");
        assert!(!host.decide(|seen| has_valid_target_library(seen, os, &lib_dir)));
        let mut host = Host::default();
        host.file("/lib/ktx.framework", "x");
        host.locked.insert("/lib/ktx.framework".to_owned());
        assert!(!host.decide(|seen| has_valid_target_library(seen, os, &lib_dir)));
    }
}

#[test]
fn the_second_library_is_looked_at_only_without_the_first() {
    let mut host = Host::default();
    host.file("/lib/libktx.a", "x");
    let lib_dir = path("/lib");
    assert!(host.decide(|seen| has_valid_target_library(seen, "linux", &lib_dir)));
    assert_eq!(host.asked, vec!["file /lib/libktx.a", "size /lib/libktx.a", "open /lib/libktx.a"]);
}

#[test]
fn a_build_needs_all_of_its_parts() {
    let mut host = Host::default();
    host.build("/c/p");
    assert!(host.is_valid("linux", "/c/p"));
    assert!(host.is_valid("macos", "/c/p"));
    for missing in [
        "/c/p/out/KTX-Software-build/lib/libktx.a",
        "/c/p/out/KTX-Software-4.4.0/include/ktx.h",
        "/c/p/out/bindings.rs",
    ] {
        let mut host = Host::default();
        host.build("/c/p");
        host.files.remove(missing);
        assert!(!host.is_valid("linux", "/c/p"));
    }
    for missing in [
        "/c/p/out/KTX-Software-build",
        "/c/p/out/KTX-Software-build/lib",
        "/c/p/out/KTX-Software-4.4.0",
    ] {
        let mut host = Host::default();
        host.build("/c/p");
        host.dirs.remove(missing);
        assert!(!host.is_valid("linux", "/c/p"));
    }
    let mut host = Host::default();
    host.build("/c/p");
    host.file("/c/p/out/bindings.rs", "");
    assert!(!host.is_valid("linux", "/c/p"));
}

#[test]
fn an_answer_of_the_wrong_kind_is_a_negative_one() {
    let file = path("/x");
    let mut seen = Observations::new();
    seen.record(Query::IsFile(path("/x")), Answer::Size(Some(1)));
    assert!(matches!(is_valid_non_empty_file(&seen, &file), Progress::Done(false)));
    seen.record(Query::IsFile(path("/x")), Answer::Flag(true));
    assert!(matches!(is_valid_non_empty_file(&seen, &file), Progress::Need(Query::Size(_))));
    seen.record(Query::Size(path("/x")), Answer::Flag(true));
    assert!(matches!(is_valid_non_empty_file(&seen, &file), Progress::Done(false)));
}

#[test]
fn the_later_answer_counts() {
    let mut seen = Observations::new();
    assert!(matches!(seen.is_dir(&path("/x")), Progress::Need(Query::IsDir(_))));
    seen.record(Query::IsDir(path("/x")), Answer::Flag(false));
    seen.record(Query::IsDir(path("/x")), Answer::Flag(true));
    assert!(matches!(seen.is_dir(&path("/x")), Progress::Done(true)));
    assert!(matches!(seen.is_dir(&path("/y")), Progress::Need(_)));
    assert!(matches!(seen.is_file(&path("/x")), Progress::Need(_)));
}

#[test]
fn links_lead_to_the_same_place() {
    let mut host = Host::default();
    host.dir("/real");
    host.dir("/link");
    host.links.insert("/link".to_owned(), "/real".to_owned());
    for (a, b, same) in [
        ("/real", "/real", true),
        ("/real", "/link", true),
        ("/link", "/real", true),
        ("/none", "/none", true),
        ("/none", "/real", false),
        ("/real", "/REAL", false),
    ] {
        let (a, b) = (path(a), path(b));
        assert_eq!(host.decide(|seen| is_same_path(seen, false, &a, &b)), same);
        assert_eq!(host.decide(|seen| is_same_path(seen, false, &b, &a)), same);
    }
}

#[test]
fn equal_paths_need_no_questions() {
    let mut host = Host::default();
    let (a, b) = (path("/a//b"), path("/a/b"));
    assert!(host.decide(|seen| is_same_path(seen, true, &a, &b)));
    assert!(host.asked.is_empty());
}

#[test]
fn case_and_slashes_do_not_matter_on_windows() {
    let mut host = Host::default();
    let (a, b) = (path("D:/repo"), path("d:/REPO"));
    assert!(host.decide(|seen| is_same_path(seen, true, &a, &b)));
    assert!(!host.decide(|seen| is_same_path(seen, false, &a, &b)));
    let (a, b) = (path("D:/repo"), path("D:\\repo"));
    assert!(host.decide(|seen| is_same_path(seen, true, &a, &b)));
    host.dir("/Real");
    host.dir("/real");
    host.links.insert("/x".to_owned(), "/Real".to_owned());
    let (a, b) = (path("/x"), path("/real"));
    assert!(host.decide(|seen| is_same_path(seen, true, &a, &b)));
    assert!(!host.decide(|seen| is_same_path(seen, false, &a, &b)));
}

#[test]
fn the_own_package_is_no_candidate() {
    let mut host = Host::default();
    host.dir("/w/target/debug/build/ktx2-rw-own/out");
    host.dir("/w/target/debug/build/ktx2-rw-other");
    let out_dir = path(OUT);
    let own = path("/w/target/debug/build/ktx2-rw-own");
    let other = path("/w/target/debug/build/ktx2-rw-other");
    assert!(!host.decide(|seen| is_candidate_package(seen, false, &own, &out_dir)));
    assert!(host.decide(|seen| is_candidate_package(seen, false, &other, &out_dir)));
    let root = path("/");
    assert!(!host.decide(|seen| is_candidate_package(seen, false, &other, &root)));
}

#[test]
fn a_build_root_is_searched_in_both_layouts() {
    let root = "/w/target/debug/build";
    let mut host = Host::default();
    assert_eq!(host.search(root, OUT), None);
    assert_eq!(host.asked, vec!["dir /w/target/debug/build"]);

    host.build("/w/target/debug/build/ktx2-rw-b");
    host.build("/w/target/debug/build/ktx2-rw-a");
    host.build("/w/target/debug/build/other-1");
    assert_eq!(host.search(root, OUT), build_dir("/w/target/debug/build/ktx2-rw-a"));

    host.build("/w/target/debug/build/ktx2-rw/ffff");
    assert_eq!(host.search(root, OUT), build_dir("/w/target/debug/build/ktx2-rw/ffff"));
}

#[test]
fn an_invalid_build_is_passed_over() {
    let mut host = Host::default();
    host.build("/w/target/debug/build/ktx2-rw-a");
    host.build("/w/target/debug/build/ktx2-rw-b");
    host.file("/w/target/debug/build/ktx2-rw-a/out/KTX-Software-build/lib/libktx.a", "");
    host.file("/w/target/debug/build/ktx2-rw-0", "a file");
    assert_eq!(
        host.search("/w/target/debug/build", OUT),
        build_dir("/w/target/debug/build/ktx2-rw-b")
    );
}

#[test]
fn the_own_build_is_not_found() {
    let mut host = Host::default();
    host.build("/w/target/debug/build/ktx2-rw-own");
    assert_eq!(host.find(&linux(), OUT), None);
    host.dir("/w/target/debug/build/ktx2-rw-link");
    host.build("/w/target/debug/build/ktx2-rw-link");
    host.links.insert(
        "/w/target/debug/build/ktx2-rw-link".to_owned(),
        "/w/target/debug/build/ktx2-rw-own".to_owned(),
    );
    assert_eq!(host.find(&linux(), OUT), None);
}

#[test]
fn the_same_profile_comes_before_the_other() {
    let mut host = Host::default();
    host.build("/w/target/release/build/ktx2-rw-r");
    assert_eq!(host.find(&linux(), OUT), build_dir("/w/target/release/build/ktx2-rw-r"));
    host.build("/w/target/debug/build/ktx2-rw-d");
    assert_eq!(host.find(&linux(), OUT), build_dir("/w/target/debug/build/ktx2-rw-d"));
    assert_eq!(
        host.find(&linux(), "/w/target/release/build/ktx2-rw/own/out"),
        build_dir("/w/target/release/build/ktx2-rw-r")
    );
}

#[test]
fn a_coverage_build_reuses_a_plain_one() {
    let mut host = Host::default();
    host.build("/w/target/debug/build/ktx2-rw-d");
    assert_eq!(
        host.find(&linux(), "/w/target/llvm-cov-target/debug/build/ktx2-rw-own/out"),
        build_dir("/w/target/debug/build/ktx2-rw-d")
    );
}

#[test]
fn an_output_elsewhere_finds_nothing_and_asks_nothing() {
    let mut host = Host::default();
    host.build("/w/target/debug/build/ktx2-rw-d");
    assert_eq!(host.find(&linux(), "/somewhere/else/out"), None);
    assert!(host.asked.is_empty());
}

#[test]
fn the_repository_root_is_the_nearest_one() {
    let mut host = Host::default();
    host.dir("/w/.git");
    host.file("/w/sub/.git", "gitdir: /elsewhere\n");
    for (start, root) in [
        ("/w/target", Some("/w".to_owned())),
        ("/w/sub/target/x", Some("/w/sub".to_owned())),
        ("/v/target", None),
    ] {
        let start = path(start);
        let found = host.decide(|seen| find_git_root(seen, &start));
        assert_eq!(found.as_ref().map(show), root);
    }
}

#[test]
fn listed_worktrees_that_are_there_are_siblings() {
    let mut host = Host::default();
    host.dir("/w/.git");
    host.dir("/v");
    host.dir("/u");
    host.git = Some(b"worktree /w\nHEAD 1\n\nworktree /v\n\nworktree /gone\n\nworktree /u\n".to_vec());
    assert_eq!(host.siblings("/w"), vec!["/v", "/u"]);
    host.links.insert("/u".to_owned(), "/w".to_owned());
    assert_eq!(host.siblings("/w"), vec!["/v"]);
}

#[test]
fn output_that_is_not_unicode_is_read_all_the_same() {
    let mut host = Host::default();
    host.dir("/w/.git");
    host.dir("/v\u{fffd}x");
    host.dir("/caf\u{e9}");
    host.git = Some(b"worktree /v\xffx\nworktree /caf\xc3\xa9\n".to_vec());
    assert_eq!(host.siblings("/w"), vec!["/v\u{fffd}x", "/caf\u{e9}"]);
}

#[test]
fn without_git_the_main_worktree_lists_the_linked_ones() {
    let mut host = Host::default();
    host.dir("/r/main/.git/worktrees");
    host.file("/r/main/.git/worktrees/a/gitdir", "/r/a/.git\n");
    host.file("/r/main/.git/worktrees/b/gitdir", "/r/b/.git\n");
    host.file("/r/main/.git/worktrees/c/HEAD", "x");
    host.dir("/r/a");
    assert_eq!(host.recorded("/r/main"), vec!["/r/main", "/r/a"]);
    assert_eq!(host.siblings("/r/main"), vec!["/r/a"]);
}

#[test]
fn without_git_a_linked_worktree_leads_to_the_others() {
    let mut host = Host::default();
    host.dir("/r/main/.git");
    host.file("/r/main/.git/worktrees/a/gitdir", "/r/a/.git\n");
    host.file("/r/main/.git/worktrees/b/gitdir", "/r/b/.git\n");
    host.file("/r/a/.git", "gitdir: /r/main/.git/worktrees/a\n");
    host.file("/r/b/.git", "gitdir: /r/main/.git/worktrees/b\n");
    // Two levels up, where nothing is said.
    assert_eq!(host.recorded("/r/a"), vec!["/r/main", "/r/a", "/r/b"]);
    // As the file says.
    host.file("/r/main/.git/worktrees/a/commondir", "../..\n");
    assert_eq!(host.recorded("/r/a"), vec!["/r/main", "/r/a", "/r/b"]);
    assert_eq!(host.siblings("/r/a"), vec!["/r/main", "/r/b"]);
    assert!(host.asked.contains(&"canonical /r/main/.git/worktrees/a/../..".to_owned()));
    // What ends in a name is taken as it is written.
    host.file("/r/main/.git/worktrees/b/commondir", "/other/.git\n");
    host.dir("/other");
    assert_eq!(host.recorded("/r/b"), vec!["/other"]);
}

#[test]
fn a_common_directory_that_is_a_link_keeps_its_place() {
    let mut host = Host::default();
    host.dir("/m");
    host.dir("/store/repo.git");
    host.links.insert("/m/.git".to_owned(), "/store/repo.git".to_owned());
    host.file("/r/a/.git", "gitdir: /m/.git/worktrees/a\n");
    host.file("/m/.git/worktrees/a/commondir", "/m/.git\n");
    assert_eq!(host.recorded("/r/a"), vec!["/m"]);
    assert!(!host.asked.iter().any(|asked| asked.starts_with("canonical")));
}

#[test]
fn dots_that_lead_nowhere_are_kept() {
    let mut host = Host::default();
    host.file("/r/a/.git", "gitdir: /gone/.git/worktrees/a\n");
    host.files.insert("/gone/.git/worktrees/a/commondir".to_owned(), "../..".to_owned());
    assert!(host.recorded("/r/a").is_empty());
    assert!(host.asked.contains(&"dir /gone/.git/worktrees/a/..".to_owned()));
}

#[test]
fn a_git_entry_that_says_nothing_leads_nowhere() {
    let mut host = Host::default();
    host.file("/r/a/.git", "nothing\n");
    assert!(host.recorded("/r/a").is_empty());
    assert!(host.recorded("/r/none").is_empty());
}

#[test]
fn git_that_lists_nothing_is_no_answer() {
    let mut host = Host::default();
    host.dir("/r/main/.git");
    host.dir("/r/a");
    host.file("/r/main/.git/worktrees/a/gitdir", "/r/a/.git");
    host.git = Some(b"worktree /gone\n".to_vec());
    assert_eq!(host.siblings("/r/main"), vec!["/r/a"]);
}

#[test]
fn target_directories_are_target_and_those_with_a_suffix() {
    let mut host = Host::default();
    host.dir("/v/target-task");
    host.dir("/v/target-debug");
    host.dir("/v/target");
    host.dir("/v/targets");
    host.dir("/v/target2");
    host.dir("/v/src");
    host.file("/v/target-file", "x");
    let worktree = path("/v");
    let found = host.decide(|seen| find_target_directories(seen, &worktree));
    assert_eq!(shown(&found), vec!["/v/target", "/v/target-debug", "/v/target-task"]);
    let none = path("/none");
    assert!(host.decide(|seen| find_target_directories(seen, &none)).is_empty());
}

fn two_worktrees() -> Host {
    let mut host = Host::default();
    host.dir("/w/.git");
    host.dir("/w/target/debug/build/ktx2-rw-own/out");
    host.dir("/v");
    host.git = Some(b"worktree /w\n\nworktree /v\n".to_vec());
    host
}

#[test]
fn another_worktree_serves_where_the_own_one_cannot() {
    let mut host = two_worktrees();
    host.build("/v/target-task/release/build/ktx2-rw-r");
    assert_eq!(host.find(&linux(), OUT), build_dir("/v/target-task/release/build/ktx2-rw-r"));
    host.build("/v/target-task/debug/build/ktx2-rw-d");
    assert_eq!(host.find(&linux(), OUT), build_dir("/v/target-task/debug/build/ktx2-rw-d"));
    host.build("/v/target/release/build/ktx2-rw/r");
    assert_eq!(host.find(&linux(), OUT), build_dir("/v/target/release/build/ktx2-rw/r"));
    host.build("/w/target/release/build/ktx2-rw-l");
    assert_eq!(host.find(&linux(), OUT), build_dir("/w/target/release/build/ktx2-rw-l"));
}

#[test]
fn other_worktrees_can_be_left_alone() {
    let mut host = two_worktrees();
    host.build("/v/target/debug/build/ktx2-rw-d");
    let mut env = linux();
    env.no_worktree_cache = Some("true".to_owned());
    assert_eq!(host.find(&env, OUT), None);
    assert!(!host.asked.iter().any(|asked| asked.starts_with("git")));
    assert!(!host.asked.iter().any(|asked| asked.contains("/v")));
    host.build("/w/target/release/build/ktx2-rw-l");
    assert_eq!(host.find(&env, OUT), build_dir("/w/target/release/build/ktx2-rw-l"));
}

#[test]
fn without_a_repository_there_are_no_other_worktrees() {
    let mut host = two_worktrees();
    host.dirs.remove("/w/.git");
    host.build("/v/target/debug/build/ktx2-rw-d");
    assert_eq!(host.find(&linux(), OUT), None);
    assert!(!host.asked.iter().any(|asked| asked.starts_with("git")));
}

#[test]
fn a_triple_is_served_by_the_same_triple_only() {
    let out_dir = "/w/target/aarch64-linux-android/debug/build/ktx2-rw-own/out";
    let env = for_target("aarch64-linux-android");
    let mut host = two_worktrees();
    host.dir(out_dir);
    host.build("/w/target/debug/build/ktx2-rw-h");
    host.build("/v/target/debug/build/ktx2-rw-h");
    host.build("/v/target/armv7-linux-androideabi/debug/build/ktx2-rw-x");
    assert_eq!(host.find(&env, out_dir), None);
    host.build("/v/target/aarch64-linux-android/release/build/ktx2-rw-t");
    assert_eq!(
        host.find(&env, out_dir),
        build_dir("/v/target/aarch64-linux-android/release/build/ktx2-rw-t")
    );
    host.build("/w/target/aarch64-linux-android/release/build/ktx2-rw-t");
    assert_eq!(
        host.find(&env, out_dir),
        build_dir("/w/target/aarch64-linux-android/release/build/ktx2-rw-t")
    );
}

#[test]
fn the_host_is_served_by_no_other_triple() {
    let env = for_target("x86_64-unknown-linux-gnu");
    let mut host = two_worktrees();
    host.build("/v/target/aarch64-linux-android/debug/build/ktx2-rw-x");
    host.build("/v/target/x86_64-unknown-linux-gnu/release/build/ktx2-rw-r");
    assert_eq!(host.find(&env, OUT), None);
    host.build("/v/target/x86_64-unknown-linux-gnu/debug/build/ktx2-rw-d");
    assert_eq!(
        host.find(&env, OUT),
        build_dir("/v/target/x86_64-unknown-linux-gnu/debug/build/ktx2-rw-d")
    );
    assert_eq!(host.find(&linux(), OUT), None);
}

#[test]
fn only_a_host_that_is_no_plain_name_is_resolved() {
    let mut host = two_worktrees();
    host.dir("/v/target");
    assert_eq!(host.find(&for_target("x86_64-unknown-linux-gnu"), OUT), None);
    assert!(!host.asked.iter().any(|asked| asked == "resolve /v/target"));
    assert!(host.asked.contains(&"dir /v/target/x86_64-unknown-linux-gnu/debug/build".to_owned()));
    assert!(!host.asked.iter().any(|asked| asked.contains("linux-gnu/release")));
    host.build("/specs/host/debug/build/ktx2-rw-h");
    assert_eq!(
        host.find(&for_target("/specs/host"), OUT),
        build_dir("/specs/host/debug/build/ktx2-rw-h")
    );
    assert!(host.asked.iter().any(|asked| asked == "resolve /v/target"));
}

#[test]
fn worktrees_are_searched_for_a_context() {
    let mut host = two_worktrees();
    host.build("/v/target/debug/build/ktx2-rw-d");
    let (out_dir, env) = (path(OUT), linux());
    let context = BuildContext::from_out_dir(&out_dir, &None).unwrap();
    let found = host.decide(|seen| search_cache_in_worktrees(seen, &env, &out_dir, &context));
    assert_eq!(
        found.map(|cache| show(&cache.ktx_build_dir)),
        build_dir("/v/target/debug/build/ktx2-rw-d")
    );
}

/// Runs a reuse. The check looks at the second host, and the copy of the bindings has this outcome.
fn reuse(host: &mut Host, later: &mut Host, env: &BuildEnv, copied: bool) -> (usize, Option<String>) {
    let out_dir = path(OUT);
    let mut seen = Observations::new();
    let mut checked = Observations::new();
    let mut outcomes: Vec<bool> = Vec::new();
    loop {
        match try_reuse_cached_build(env, &out_dir, &seen, &checked, &outcomes) {
            ReuseStep::Search(query) => {
                let answer = host.answer(&query);
                seen.record(query, answer);
            }
            ReuseStep::Check(query) => {
                let answer = later.answer(&query);
                checked.record(query, answer);
            }
            ReuseStep::Perform(effect) => {
                outcomes.push(match effect {
                    Effect::CopyFile(_, _) => copied,
                    _ => true,
                });
            }
            ReuseStep::Reused(cache) => return (outcomes.len(), Some(show(&cache.ktx_build_dir))),
            ReuseStep::NotReused => return (outcomes.len(), None),
        }
    }
}

fn with_build() -> Host {
    let mut host = two_worktrees();
    host.build("/v/target/debug/build/ktx2-rw-d");
    host
}

#[test]
fn a_build_is_searched_checked_and_restored() {
    let reused = reuse(&mut with_build(), &mut with_build(), &linux(), true);
    assert_eq!(reused, (7, build_dir("/v/target/debug/build/ktx2-rw-d")));
}

#[test]
fn a_build_that_goes_away_meanwhile_is_not_restored() {
    let mut later = with_build();
    later.files.remove("/v/target/debug/build/ktx2-rw-d/out/bindings.rs");
    assert_eq!(reuse(&mut with_build(), &mut later, &linux(), true), (0, None));
}

#[test]
fn a_restore_that_fails_is_rolled_back_and_reuses_nothing() {
    assert_eq!(reuse(&mut with_build(), &mut with_build(), &linux(), false), (10, None));
}

#[test]
fn nothing_to_reuse_is_nothing_to_do() {
    let mut later = with_build();
    assert_eq!(reuse(&mut two_worktrees(), &mut later, &linux(), true), (0, None));
    assert!(later.asked.is_empty());
}

#[test]
fn reuse_that_is_turned_off_asks_nothing() {
    let mut host = with_build();
    let mut env = linux();
    env.no_cache_reuse = Some("1".to_owned());
    assert_eq!(reuse(&mut host, &mut with_build(), &env, true), (0, None));
    assert!(host.asked.is_empty());
}

/// Runs a reuse on one host, with all its effects.
fn reuse_for_real(host: &mut Host) -> bool {
    let (out_dir, env) = (path(OUT), linux());
    let mut seen = Observations::new();
    let mut checked = Observations::new();
    let mut outcomes: Vec<bool> = Vec::new();
    loop {
        match try_reuse_cached_build(&env, &out_dir, &seen, &checked, &outcomes) {
            ReuseStep::Search(query) => {
                let answer = host.answer(&query);
                seen.record(query, answer);
            }
            ReuseStep::Check(query) => {
                let answer = host.answer(&query);
                checked.record(query, answer);
            }
            ReuseStep::Perform(effect) => outcomes.push(host.perform(&effect)),
            ReuseStep::Reused(_) => return true,
            ReuseStep::NotReused => return false,
        }
    }
}

#[test]
fn a_restored_build_has_its_artifacts_and_nothing_else() {
    let mut host = with_build();
    let package = "/v/target/debug/build/ktx2-rw-d";
    host.file(&format!("{}/out/KTX-Software-build/include/ktx.h", package), "header");
    host.file(&format!("{}/out/KTX-Software-build/build/CMakeCache.txt", package), "cache");
    host.file(&format!("{}/stale.o", OUT), "kept");
    host.file(&format!("{}/KTX-Software-build/lib/stale.a", OUT), "stale");
    host.file(&format!("{}/KTX-Software-4.4.0/stale.c", OUT), "stale");
    assert!(reuse_for_real(&mut host));
    assert_eq!(
        host.listing(OUT),
        vec![
            OUT.to_owned(),
            format!("{}/KTX-Software-build", OUT),
            format!("{}/KTX-Software-build/include", OUT),
            format!("{}/KTX-Software-build/include/ktx.h", OUT),
            format!("{}/KTX-Software-build/lib", OUT),
            format!("{}/KTX-Software-build/lib/libktx.a", OUT),
            format!("{}/bindings.rs", OUT),
            format!("{}/stale.o", OUT),
        ]
    );
    let lib_dir = path(&format!("{}/KTX-Software-build/lib", OUT));
    assert!(host.decide(|seen| has_valid_target_library(seen, "linux", &lib_dir)));
    let bindings = path(&format!("{}/bindings.rs", OUT));
    assert!(host.decide(|seen| is_valid_non_empty_file(seen, &bindings)));
}

#[test]
fn other_worktrees_that_are_left_alone_make_no_difference() {
    let mut env = linux();
    env.no_worktree_cache = Some("1".to_owned());
    for local in [false, true] {
        let mut with = with_build();
        let mut without = two_worktrees();
        without.git = None;
        if local {
            with.build("/w/target/release/build/ktx2-rw-l");
            without.build("/w/target/release/build/ktx2-rw-l");
        }
        let found = with.find(&env, OUT);
        assert_eq!(found.is_some(), local);
        assert_eq!(found, without.find(&env, OUT));
        assert_eq!(with.asked, without.asked);
        assert!(with.asked.iter().all(|asked| asked.contains(" /w/target/")));
    }
}

#[test]
fn a_copy_that_breaks_off_leaves_nothing_behind() {
    let mut host = with_build();
    let package = "/v/target/debug/build/ktx2-rw-d";
    let secret = format!("{}/out/KTX-Software-build/include/ktx/secret.h", package);
    host.file(&secret, "x");
    host.locked.insert(secret);
    host.file(&format!("{}/stale.o", OUT), "kept");
    let before = host.listing("/v");
    assert!(!reuse_for_real(&mut host));
    assert_eq!(host.listing(OUT), vec![OUT.to_owned(), format!("{}/stale.o", OUT)]);
    assert_eq!(host.listing("/v"), before);
}
