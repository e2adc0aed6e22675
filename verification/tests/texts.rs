//! Text, flags and what Git prints.
use ktx_build_cache::environment::{is_env_flag_set, BuildEnv};
use ktx_build_cache::git::{git_worktree_args, parse_git_file, parse_worktree_list};
use ktx_build_cache::reuse::reuse_message;
use ktx_build_cache::text::{
    equal_ignoring_case, equal_ignoring_case_and_slashes, has_prefix, is_single_name, split_lines,
    trimmed, without_prefix,
};

#[test]
fn white_space_is_trimmed_as_std_trims_it() {
    for text in [
        "", " ", "a", "  a b\t", "\n/x\r\n", "\u{a0}x\u{3000}", "\u{85}\u{1680}\u{2028}",
        "\u{200b}x", "\u{1c}x", "\u{2007}y\u{202f}\u{205f}", "\u{b}\u{c}z",
    ] {
        assert_eq!(trimmed(text), text.trim());
    }
}

#[test]
fn every_white_space_character_is_known() {
    for code in 0..0x11_0000u32 {
        if let Some(c) = char::from_u32(code) {
            let text = c.to_string();
            if c.is_whitespace() || code < 0x3100 {
                assert_eq!(trimmed(&text), text.trim());
            }
        }
    }
}

#[test]
fn lines_end_as_std_ends_them() {
    for text in [
        "", "\n", "a", "a\n", "a\nb", "a\r\nb\r\n", "a\rb\n\n\nc", "\r\n", "a\r", "\r", "a\n\r\n",
        "\n\r",
    ] {
        let expected: Vec<String> = text.lines().map(str::to_owned).collect();
        assert_eq!(split_lines(text), expected);
    }
}

#[test]
fn prefixes_are_cut_once() {
    assert_eq!(without_prefix("gitdir: x", "gitdir:"), Some(" x".to_owned()));
    assert_eq!(without_prefix("gitdir:gitdir:x", "gitdir:"), Some("gitdir:x".to_owned()));
    assert_eq!(without_prefix("git", "gitdir:"), None);
    assert_eq!(without_prefix("\u{e9}x", "\u{e9}"), Some("x".to_owned()));
    assert_eq!(without_prefix("x", ""), Some("x".to_owned()));
    assert!(has_prefix("ktx2-rw-0123", "ktx2-rw-"));
    assert!(!has_prefix("ktx2-rw", "ktx2-rw-"));
}

#[test]
fn only_the_case_of_ascii_letters_is_ignored() {
    for (a, b) in [
        ("D:\\Repo", "d:\\rEPO"), ("true", "TRUE"), ("\u{c4}", "\u{e4}"), ("a", "ab"), ("@", "`"),
        ("[", "{"), ("", ""), ("Z", "z"), ("A", "a"), ("a/b", "a\\b"),
    ] {
        assert_eq!(equal_ignoring_case(a, b), a.eq_ignore_ascii_case(b));
        assert_eq!(equal_ignoring_case(b, a), b.eq_ignore_ascii_case(a));
    }
    assert!(equal_ignoring_case_and_slashes("D:/repo\\x", "d:\\REPO/X"));
    assert!(!equal_ignoring_case_and_slashes("D:/repo", "D:/repo/"));
}

#[test]
fn flags_are_set_by_one_and_true() {
    for value in ["1", "true", "TRUE", "True", "tRuE"] {
        assert!(is_env_flag_set(&Some(value.to_owned())));
    }
    for value in ["", "0", "false", "yes", "on", " 1", "11", "true "] {
        assert!(!is_env_flag_set(&Some(value.to_owned())));
    }
    assert!(!is_env_flag_set(&None));
}

#[test]
fn an_unknown_system_has_an_empty_name() {
    let mut env = BuildEnv {
        no_cache_reuse: None,
        no_worktree_cache: None,
        target: None,
        target_os: None,
        windows: false,
    };
    assert_eq!(env.os_name(), "");
    env.target_os = Some("ios".to_owned());
    assert_eq!(env.os_name(), "ios");
}

#[test]
fn git_is_asked_for_a_porcelain_list() {
    assert_eq!(
        git_worktree_args(Some("/w/main")),
        vec!["-C", "/w/main", "worktree", "list", "--porcelain"]
    );
    assert_eq!(git_worktree_args(None)[1], ".");
}

#[test]
fn worktree_lines_name_paths() {
    let output = "worktree /w/main\nHEAD 0123\nbranch refs/heads/main\n\nworktree  /w/a b \r\n\
                  detached\n\nworktrees /w/c\n worktree /w/d\nworktree ";
    assert_eq!(parse_worktree_list(output), vec!["/w/main", "/w/a b", ""]);
    assert!(parse_worktree_list("").is_empty());
}

#[test]
fn the_first_gitdir_line_counts() {
    let dir = parse_git_file("# note\ngitdir: /r/.git/worktrees/a\ngitdir: /other\n");
    assert_eq!(dir, Some("/r/.git/worktrees/a".to_owned()));
    assert_eq!(parse_git_file("gitdir:../x\r\n"), Some("../x".to_owned()));
    assert_eq!(parse_git_file(" gitdir: /x\n"), None);
    assert_eq!(parse_git_file(""), None);
}

#[test]
fn the_message_names_the_source() {
    assert_eq!(
        reuse_message("/w/target/debug/build/ktx2-rw-1/out/KTX-Software-build"),
        "cargo:warning=ktx2-rw: Successfully reused cached build artifacts from \
         /w/target/debug/build/ktx2-rw-1/out/KTX-Software-build"
    );
}

#[test]
fn a_single_name_has_no_separators_and_no_dots_alone() {
    for name in ["x86_64-unknown-linux-gnu", "a", "...", ".x", "a.json", "caf\u{e9}"] {
        assert!(is_single_name(name));
    }
    for text in ["", ".", "..", "a/b", "/a", "a/", "a\\b", "C:", "c:x"] {
        assert!(!is_single_name(text));
    }
}
