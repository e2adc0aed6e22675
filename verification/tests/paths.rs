//! Paths and the build context that is read off them.
use ktx_build_cache::context::{
    find_ancestor_named, is_custom_target, profile_dir, sibling_build_root, BuildContext,
};
use ktx_build_cache::path::{same_text, Component, HostPath, Name};

fn path(text: &str) -> HostPath {
    let mut components: Vec<Component> = Vec::new();
    if text.starts_with('/') {
        components.push(Component::RootDir);
    }
    for part in text.split('/') {
        match part {
            "" => {}
            "." => components.push(Component::CurDir),
            ".." => components.push(Component::ParentDir),
            name => components.push(Component::Normal(Name::Text(name.to_owned()))),
        }
    }
    HostPath { components }
}

fn show(path: &HostPath) -> String {
    let mut text = String::new();
    for component in &path.components {
        let part = match component {
            Component::Prefix(Name::Text(name)) => name.clone(),
            Component::Prefix(Name::Raw(bytes)) => format!("{:?}", bytes),
            Component::RootDir => "/".to_owned(),
            Component::CurDir => ".".to_owned(),
            Component::ParentDir => "..".to_owned(),
            Component::Normal(Name::Text(name)) => name.clone(),
            Component::Normal(Name::Raw(bytes)) => format!("{:?}", bytes),
        };
        if !text.is_empty() && !text.ends_with('/') {
            text.push('/');
        }
        text.push_str(&part);
    }
    text
}

fn shown(path: &Option<HostPath>) -> Option<String> {
    path.as_ref().map(show)
}

fn context(out_dir: &str, target: Option<&str>) -> BuildContext {
    BuildContext::from_out_dir(&path(out_dir), &target.map(str::to_owned)).unwrap()
}

#[test]
fn parents_end_at_the_root_and_at_nothing() {
    assert_eq!(shown(&path("/a/b").parent()), Some("/a".to_owned()));
    assert_eq!(shown(&path("/a").parent()), Some("/".to_owned()));
    assert_eq!(shown(&path("/").parent()), None);
    assert_eq!(shown(&path("a").parent()), Some("".to_owned()));
    assert_eq!(shown(&path("").parent()), None);
    assert_eq!(shown(&path("a/..").parent()), Some("a".to_owned()));
    assert_eq!(shown(&path(".").parent()), Some("".to_owned()));
    let drive = HostPath { components: vec![Component::Prefix(Name::Text("C:".to_owned()))] };
    assert_eq!(shown(&drive.parent()), None);
}

#[test]
fn only_a_normal_component_is_a_name() {
    assert!(path("/a/b").is_named("b"));
    assert!(!path("/a/b").is_named("a"));
    assert!(!path("/a/b").is_named("B"));
    assert!(path("/").file_name().is_none());
    assert!(path("a/..").file_name().is_none());
    assert!(path("").file_name().is_none());
    let raw = path("/a").entry(&Name::Raw(vec![0x62]));
    assert!(!raw.is_named("b"));
    assert!(raw.file_name().is_some());
}

#[test]
fn paths_are_compared_by_component() {
    assert!(path("/a/b").same(&path("/a//b")));
    assert!(!path("/a/b").same(&path("a/b")));
    assert!(!path("/a/b").same(&path("/a/b/c")));
    assert!(!path("/a/b").same(&path("/a/c")));
    assert!(path("/a").child("b").same(&path("/a/b")));
    assert!(HostPath::empty().child("b").same(&path("b")));
    let raw = Name::Raw(vec![0xff, 0x61]);
    assert!(raw.same(&raw.clone()));
    assert!(!raw.same(&Name::Raw(vec![0xff])));
    assert!(!raw.same(&Name::Raw(vec![0xff, 0x62])));
    assert!(!Name::Raw(vec![0x61]).same(&Name::Text("a".to_owned())));
    assert!(same_text("target", "target"));
    assert!(!same_text("target", "Target"));
}

#[test]
fn the_nearest_ancestor_wins() {
    let found = find_ancestor_named(&path("/build/x/build/y"), "build");
    assert_eq!(shown(&found), Some("/build/x/build".to_owned()));
    let found = find_ancestor_named(&path("/a/build"), "build");
    assert_eq!(shown(&found), Some("/a/build".to_owned()));
    assert_eq!(shown(&find_ancestor_named(&path("/a/b"), "build")), None);
    assert_eq!(shown(&find_ancestor_named(&path(""), "build")), None);
}

#[test]
fn both_layouts_give_the_same_context() {
    for out_dir in [
        "/w/target/debug/build/ktx2-rw-0123abcd/out",
        "/w/target/debug/build/ktx2-rw/0123abcd/out",
    ] {
        let context = context(out_dir, Some("x86_64-unknown-linux-gnu"));
        assert_eq!(show(&context.current_build_root), "/w/target/debug/build");
        assert_eq!(show(&context.current_target_root), "/w/target");
        assert_eq!(context.target_triple, None);
    }
}

#[test]
fn a_triple_is_read_off_the_directory_above_the_profile() {
    let out_dir = "/w/target/aarch64-linux-android/release/build/ktx2-rw-1/out";
    let cross = context(out_dir, Some("aarch64-linux-android"));
    assert_eq!(show(&cross.current_build_root), "/w/target/aarch64-linux-android/release/build");
    assert_eq!(show(&cross.current_target_root), "/w/target");
    assert_eq!(cross.target_triple, Some("aarch64-linux-android".to_owned()));
    assert!(cross.is_release());

    let other = context(out_dir, Some("armv7-linux-androideabi"));
    assert_eq!(show(&other.current_target_root), "/w/target/aarch64-linux-android");
    assert_eq!(other.target_triple, None);

    let unset = context(out_dir, None);
    assert_eq!(show(&unset.current_target_root), "/w/target/aarch64-linux-android");
    assert_eq!(unset.target_triple, None);
}

#[test]
fn an_output_outside_a_build_root_has_no_context() {
    let none = BuildContext::from_out_dir(&path("/w/target/debug/ktx2-rw-1/out"), &None);
    assert!(none.is_none());
    assert!(BuildContext::from_out_dir(&path("/"), &None).is_none());
    // The output directory itself does not count.
    assert!(BuildContext::from_out_dir(&path("/w/target/debug/build"), &None).is_none());
    // No directory is left for the profile, or for the target directory.
    assert!(BuildContext::from_out_dir(&path("/build/p/out"), &None).is_none());
    let relative = BuildContext::from_out_dir(&path("debug/build/p/out"), &None);
    assert_eq!(relative.map(|c| show(&c.current_target_root)), Some("".to_owned()));
    // A triple directory that nothing is above of.
    let target = Some("..".to_owned());
    let up = BuildContext::from_out_dir(&path("../debug/build/p/out"), &target);
    assert_eq!(up.unwrap().target_triple, None);
}

#[test]
fn plain_builds_search_where_they_are() {
    let plain = context("/w/target/debug/build/ktx2-rw-1/out", None);
    assert!(!plain.is_llvm_cov_build());
    assert!(!plain.is_miri_build());
    assert!(!plain.is_miri_build_with_target());
    assert!(!plain.is_special_build());
    assert!(!plain.is_release());
    assert_eq!(show(&plain.cargo_build_root()), "/w/target/debug/build");
    let custom = context("/w/target/bench/build/ktx2-rw-1/out", None);
    assert!(!custom.is_release());
    assert_eq!(show(&custom.cargo_build_root()), "/w/target/bench/build");
}

#[test]
fn coverage_builds_search_one_level_up() {
    let coverage = context("/w/target/llvm-cov-target/release/build/ktx2-rw-1/out", None);
    assert!(coverage.is_llvm_cov_build());
    assert!(coverage.is_special_build());
    assert_eq!(show(&coverage.cargo_build_root()), "/w/target/release/build");
    let triple = "x86_64-pc-windows-msvc";
    let cross = context(
        "/w/target/llvm-cov-target/x86_64-pc-windows-msvc/debug/build/ktx2-rw-1/out",
        Some(triple),
    );
    assert!(cross.is_llvm_cov_build());
    assert_eq!(
        show(&cross.cargo_build_root()),
        "/w/target/x86_64-pc-windows-msvc/debug/build"
    );
}

#[test]
fn miri_builds_search_outside_the_directory_of_miri() {
    let miri = context("/w/target/miri/debug/build/ktx2-rw-1/out", None);
    assert!(miri.is_miri_build());
    assert!(!miri.is_miri_build_with_target());
    assert_eq!(show(&miri.cargo_build_root()), "/w/target/debug/build");

    let nested = context("/w/target/miri/x86_64-unknown-linux-gnu/debug/build/k/out", None);
    assert!(nested.is_miri_build());
    assert!(nested.is_miri_build_with_target());
    assert_eq!(show(&nested.cargo_build_root()), "/w/target/debug/build");

    let triple = context(
        "/w/target/miri/x86_64-unknown-linux-gnu/debug/build/k/out",
        Some("x86_64-unknown-linux-gnu"),
    );
    assert!(triple.is_miri_build());
    assert!(!triple.is_miri_build_with_target());
    assert_eq!(
        show(&triple.cargo_build_root()),
        "/w/target/x86_64-unknown-linux-gnu/debug/build"
    );
}

#[test]
fn profiles_are_siblings_of_each_other() {
    let debug = path("/w/target/debug/build");
    let release = sibling_build_root(&debug, false).unwrap();
    assert_eq!(show(&release), "/w/target/release/build");
    assert_eq!(shown(&sibling_build_root(&release, true)), Some(show(&debug)));
    assert_eq!(
        shown(&sibling_build_root(&path("/w/target/triple/release/build"), true)),
        Some("/w/target/triple/debug/build".to_owned())
    );
    assert_eq!(shown(&sibling_build_root(&path("build"), false)), None);
    assert_eq!(shown(&sibling_build_root(&path("/build"), false)), None);
    assert_eq!(profile_dir(true), "release");
    assert_eq!(profile_dir(false), "debug");
}

#[test]
fn a_project_named_like_the_directory_of_miri_is_a_plain_one() {
    for target in ["target", "target-task"] {
        let root = format!("/home/u/miri/{}/debug/build", target);
        let plain = context(&format!("{}/ktx2-rw-1/out", root), None);
        assert!(plain.is_miri_build_with_target());
        assert_eq!(show(&plain.cargo_build_root()), root);
        let nested = format!("/home/u/miri/{}/miri/debug/build/ktx2-rw-1/out", target);
        assert_eq!(show(&context(&nested, None).cargo_build_root()), root);
        let triple = format!("/home/u/miri/{}/some-triple/debug/build", target);
        let cross = context(&format!("{}/ktx2-rw-1/out", triple), Some("some-triple"));
        assert_eq!(show(&cross.cargo_build_root()), triple);
    }
}

#[test]
fn only_a_hyphen_makes_a_custom_target() {
    assert!(is_custom_target(&Name::Text("target-task".to_owned())));
    assert!(is_custom_target(&Name::Text("target-".to_owned())));
    assert!(!is_custom_target(&Name::Text("target".to_owned())));
    assert!(!is_custom_target(&Name::Text("targets".to_owned())));
    assert!(!is_custom_target(&Name::Raw(b"target-x".to_vec())));
}
