//! The environment that a build runs in.
use vstd::prelude::*;

use crate::text::{equal_ignoring_case, ignoring_case_is_comparing_in_lower_case};
use crate::text::{lowered, same_ignoring_case};

verus! {

/// Set to skip the reuse of a cached build altogether.
pub const ENV_NO_CACHE_REUSE: &'static str = "KTX_NO_CACHE_REUSE";

/// Set to keep the search within the current target directory.
pub const ENV_NO_WORKTREE_CACHE: &'static str = "KTX_NO_WORKTREE_CACHE";

/// The triple that is built for.
pub const ENV_TARGET: &'static str = "TARGET";

/// The operating system that is built for.
pub const ENV_TARGET_OS: &'static str = "CARGO_CFG_TARGET_OS";

/// The values of the variables that matter here, each missing where it is unset or not Unicode,
/// and the kind of host.
#[derive(Debug)]
pub struct BuildEnv {
    pub no_cache_reuse: Option<String>,
    pub no_worktree_cache: Option<String>,
    pub target: Option<String>,
    pub target_os: Option<String>,
    /// Whether the host is Windows, where paths that differ in case mean the same.
    pub windows: bool,
}

/// What an environment says.
pub struct EnvModel {
    pub no_cache_reuse: Option<Seq<char>>,
    pub no_worktree_cache: Option<Seq<char>>,
    pub target: Option<Seq<char>>,
    pub target_os: Option<Seq<char>>,
    pub windows: bool,
}

impl View for BuildEnv {
    type V = EnvModel;

    open spec fn view(&self) -> EnvModel {
        EnvModel {
            no_cache_reuse: self.no_cache_reuse.deep_view(),
            no_worktree_cache: self.no_worktree_cache.deep_view(),
            target: self.target.deep_view(),
            target_os: self.target_os.deep_view(),
            windows: self.windows,
        }
    }
}

/// A flag is set by `1` and by `true` in any case.
pub open spec fn is_set(value: Option<Seq<char>>) -> bool {
    value matches Some(text) && (text == "1"@ || same_ignoring_case(text, "true"@))
}

/// The operating system that is built for; empty where it is not known.
pub open spec fn os_name(env: EnvModel) -> Seq<char> {
    match env.target_os {
        Some(name) => name,
        None => Seq::empty(),
    }
}

/// Whether the value of a variable sets the flag.
pub fn is_env_flag_set(value: &Option<String>) -> (set: bool)
    ensures
        set == is_set(value.deep_view()),
{
    match value {
        Some(text) => crate::path::same_text(text.as_str(), "1") || equal_ignoring_case(
            text.as_str(),
            "true",
        ),
        None => false,
    }
}

impl BuildEnv {
    /// The operating system that is built for; empty where it is not known.
    pub fn os_name(&self) -> (name: String)
        ensures
            name@ == os_name(self@),
    {
        match &self.target_os {
            Some(name) => name.clone(),
            None => String::new(),
        }
    }
}

/// A flag is set exactly by a `1` and by a `true`, however its letters are written; nothing else
/// sets it, and a variable that is missing does not.
pub proof fn one_and_true_set_a_flag(value: Option<Seq<char>>)
    ensures
        is_set(value) <==> value == Some(seq!['1']) || (value matches Some(text) && lowered(text)
            == seq!['t', 'r', 'u', 'e']),
{
    reveal_strlit("1");
    reveal_strlit("true");
    assert("1"@ =~= seq!['1']);
    assert("true"@ =~= seq!['t', 'r', 'u', 'e']);
    if let Some(text) = value {
        ignoring_case_is_comparing_in_lower_case(text, "true"@);
        assert(lowered("true"@) =~= "true"@);
    }
}

/// The operating system is the one that is given, whichever that is.
pub proof fn the_system_is_the_one_given(env: EnvModel)
    ensures
        env.target_os matches Some(name) ==> os_name(env) == name,
        env.target_os is None ==> os_name(env).len() == 0,
{
}

/// The variables have the names that users and Cargo know them by.
pub proof fn the_variables_have_their_names()
    ensures
        ENV_NO_CACHE_REUSE@ == "KTX_NO_CACHE_REUSE"@,
        ENV_NO_WORKTREE_CACHE@ == "KTX_NO_WORKTREE_CACHE"@,
        ENV_TARGET@ == "TARGET"@,
        ENV_TARGET_OS@ == "CARGO_CFG_TARGET_OS"@,
{
}

} // verus!
