//! The reuse of a cached build as a whole.
use vstd::prelude::*;

use crate::cache::{build_in, build_of_package, cache_asked, is_valid_cache, package_of};
use crate::cache::{CacheModel, CachedBuild, OUTPUT_DIR_NAME};
use crate::context::{a_build_root_is_in_its_directory, a_context_fits_together, is_root_in};
use crate::context::{build_root_in, context_of, is_profile_root, sibling_build_root, sibling_of};
use crate::context::{BuildContext, ContextModel};
use crate::environment::{is_env_flag_set, is_set, os_name, BuildEnv, EnvModel};
use crate::observe::{also, first_unseen, group_settle, settle};
use crate::observe::{Observations, Progress, ProgressModel, Query, QueryModel, World};
use crate::path::{child, is_named, is_within, parent};
use crate::path::{HostPath, PathModel};
use crate::restore::{a_failed_restore_is_rolled_back, a_finished_restore_is_complete};
use crate::restore::{clearing, copying, has_headers, is_complete, is_copy, is_history};
use crate::restore::restore_step;
use crate::restore::{Effect, EffectModel, RestoreStep, StepModel};
use crate::search::{a_found_build_is_reusable, is_package_in, is_reusable, is_same};
use crate::search::{found_in_root, root_asked, search_cache_in_directory};
use crate::text::is_plain_name;
use crate::worktree::{a_build_found_in_worktrees_may_serve, is_root_in_target, is_sibling_target};
use crate::worktree::{found_in_worktrees, host_dir, search_cache_in_worktrees, worktrees_asked};

verus! {

/// What the message about a reuse says before the path.
pub const REUSE_MESSAGE: &'static str =
    "cargo:warning=ktx2-rw: Successfully reused cached build artifacts from ";

/// The build root of the other profile, where it is another one than `root`.
pub open spec fn other_root(root: PathModel, release: bool) -> Option<PathModel> {
    match sibling_of(root, release) {
        Some(sibling) => if sibling != root {
            Some(sibling)
        } else {
            None
        },
        None => None,
    }
}

/// The build to reuse in the build root of the other profile.
pub open spec fn found_in_other_profile(
    world: World,
    env: EnvModel,
    context: ContextModel,
    out_dir: PathModel,
) -> Option<CacheModel> {
    match other_root(context.cargo_root(), context.is_release()) {
        Some(sibling) => found_in_root(world, env, sibling, out_dir),
        None => None,
    }
}

pub open spec fn other_profile_asked(
    world: World,
    env: EnvModel,
    context: ContextModel,
    out_dir: PathModel,
) -> Seq<QueryModel> {
    match other_root(context.cargo_root(), context.is_release()) {
        Some(sibling) => root_asked(world, env, sibling, out_dir),
        None => Seq::empty(),
    }
}

/// The build to reuse in the current target directory: one of the same profile, else one of the
/// other.
pub open spec fn found_locally(
    world: World,
    env: EnvModel,
    context: ContextModel,
    out_dir: PathModel,
) -> Option<CacheModel> {
    match found_in_root(world, env, context.cargo_root(), out_dir) {
        Some(cache) => Some(cache),
        None => found_in_other_profile(world, env, context, out_dir),
    }
}

pub open spec fn locally_asked(
    world: World,
    env: EnvModel,
    context: ContextModel,
    out_dir: PathModel,
) -> Seq<QueryModel> {
    root_asked(world, env, context.cargo_root(), out_dir) + also(
        found_in_root(world, env, context.cargo_root(), out_dir) is None,
        other_profile_asked(world, env, context, out_dir),
    )
}

/// The build to reuse in a context: one in the current target directory, else one in another
/// worktree, unless those are to be left alone.
pub open spec fn found_in_context(
    world: World,
    env: EnvModel,
    context: ContextModel,
    out_dir: PathModel,
) -> Option<CacheModel> {
    match found_locally(world, env, context, out_dir) {
        Some(cache) => Some(cache),
        None => if is_set(env.no_worktree_cache) {
            None
        } else {
            found_in_worktrees(world, env, context, out_dir)
        },
    }
}

pub open spec fn context_asked(
    world: World,
    env: EnvModel,
    context: ContextModel,
    out_dir: PathModel,
) -> Seq<QueryModel> {
    locally_asked(world, env, context, out_dir) + also(
        found_locally(world, env, context, out_dir) is None && !is_set(env.no_worktree_cache),
        worktrees_asked(world, env, context, out_dir),
    )
}

/// The build to reuse for the build script with the output directory `out_dir`.
pub open spec fn found_build(world: World, env: EnvModel, out_dir: PathModel) -> Option<CacheModel> {
    match context_of(out_dir, env.target) {
        Some(context) => found_in_context(world, env, context, out_dir),
        None => None,
    }
}

pub open spec fn build_asked(world: World, env: EnvModel, out_dir: PathModel) -> Seq<QueryModel> {
    match context_of(out_dir, env.target) {
        Some(context) => context_asked(world, env, context, out_dir),
        None => Seq::empty(),
    }
}

fn search_target_directory(
    seen: &Observations,
    env: &BuildEnv,
    context: &BuildContext,
    out_dir: &HostPath,
) -> (found: Progress<Option<CachedBuild>>)
    ensures
        found@ == settle(
            seen@,
            locally_asked(seen@, env@, context@, out_dir@),
            found_locally(seen@, env@, context@, out_dir@),
        ),
{
    broadcast use group_settle;

    let root = context.cargo_build_root();
    match search_cache_in_directory(seen, env, &root, out_dir) {
        Progress::Done(None) => {},
        other => return other,
    }
    match sibling_build_root(&root, context.is_release()) {
        Some(sibling) => if sibling.same(&root) {
            Progress::Done(None)
        } else {
            search_cache_in_directory(seen, env, &sibling, out_dir)
        },
        None => Progress::Done(None),
    }
}

/// Searches for a build to reuse: first where the current profile leaves its builds, then where
/// the other profile of the same target directory does, then in the other worktrees.
pub fn find_cached_build(
    seen: &Observations,
    env: &BuildEnv,
    current_out_dir: &HostPath,
) -> (found: Progress<Option<CachedBuild>>)
    ensures
        found@ == settle(
            seen@,
            build_asked(seen@, env@, current_out_dir@),
            found_build(seen@, env@, current_out_dir@),
        ),
{
    broadcast use group_settle;

    let context = match BuildContext::from_out_dir(current_out_dir, &env.target) {
        Some(context) => context,
        None => return Progress::Done(None),
    };
    match search_target_directory(seen, env, &context, current_out_dir) {
        Progress::Done(None) => {},
        other => return other,
    }
    if is_env_flag_set(&env.no_worktree_cache) {
        return Progress::Done(None);
    }
    search_cache_in_worktrees(seen, env, current_out_dir, &context)
}

/// The next step of a reuse, or its result.
#[derive(Debug)]
pub enum ReuseStep {
    /// Answer the query and add it to what was seen in the search.
    Search(Query),
    /// Answer the query and add it to what was seen in the last check before the restore.
    Check(Query),
    /// Perform the effect and add its outcome.
    Perform(Effect),
    /// The build was taken over, from there.
    Reused(CachedBuild),
    /// There is nothing to reuse, or it could not be taken over.
    NotReused,
}

/// What a step of a reuse says.
pub enum ReuseModel {
    Search(QueryModel),
    Check(QueryModel),
    Perform(EffectModel),
    Reused(CacheModel),
    NotReused,
}

impl View for ReuseStep {
    type V = ReuseModel;

    open spec fn view(&self) -> ReuseModel {
        match self {
            ReuseStep::Search(query) => ReuseModel::Search(query@),
            ReuseStep::Check(query) => ReuseModel::Check(query@),
            ReuseStep::Perform(effect) => ReuseModel::Perform(effect@),
            ReuseStep::Reused(cache) => ReuseModel::Reused(cache@),
            ReuseStep::NotReused => ReuseModel::NotReused,
        }
    }
}

/// What follows once a build was found: it is checked anew, then taken over.
pub open spec fn take_over_step(
    env: EnvModel,
    out_dir: PathModel,
    cache: CacheModel,
    checked: World,
    outcomes: Seq<bool>,
) -> ReuseModel {
    match settle(
        checked,
        cache_asked(checked, os_name(env), cache),
        is_valid_cache(checked, os_name(env), cache),
    ) {
        ProgressModel::Need(query) => ReuseModel::Check(query),
        ProgressModel::Done(false) => ReuseModel::NotReused,
        ProgressModel::Done(true) => match restore_step(cache, out_dir, outcomes) {
            StepModel::Perform(effect) => ReuseModel::Perform(effect),
            StepModel::Finished(true) => ReuseModel::Reused(cache),
            StepModel::Finished(false) => ReuseModel::NotReused,
        },
    }
}

/// What follows in a reuse, from what was seen in the search and in the last check and from the
/// outcomes of the effects.
pub open spec fn reuse_step(
    env: EnvModel,
    out_dir: PathModel,
    seen: World,
    checked: World,
    outcomes: Seq<bool>,
) -> ReuseModel {
    if is_set(env.no_cache_reuse) {
        ReuseModel::NotReused
    } else {
        match settle(seen, build_asked(seen, env, out_dir), found_build(seen, env, out_dir)) {
            ProgressModel::Need(query) => ReuseModel::Search(query),
            ProgressModel::Done(None) => ReuseModel::NotReused,
            ProgressModel::Done(Some(cache)) => take_over_step(
                env,
                out_dir,
                cache,
                checked,
                outcomes,
            ),
        }
    }
}

fn take_over(
    env: &BuildEnv,
    out_dir: &HostPath,
    cache: CachedBuild,
    checked: &Observations,
    outcomes: &Vec<bool>,
) -> (step: ReuseStep)
    ensures
        step@ == take_over_step(env@, out_dir@, cache@, checked@, outcomes@),
{
    match cache.validate(checked, env.os_name().as_str()) {
        Progress::Need(query) => ReuseStep::Check(query),
        Progress::Done(false) => ReuseStep::NotReused,
        Progress::Done(true) => match cache.restore_to(out_dir, outcomes) {
            RestoreStep::Perform(effect) => ReuseStep::Perform(effect),
            RestoreStep::Finished(true) => ReuseStep::Reused(cache),
            RestoreStep::Finished(false) => ReuseStep::NotReused,
        },
    }
}

/// The next step in the reuse of a cached build for the build script with the output directory
/// `current_out_dir`: a search, a check of what was found, and a restore. It starts with nothing
/// seen and no outcomes.
pub fn try_reuse_cached_build(
    env: &BuildEnv,
    current_out_dir: &HostPath,
    seen: &Observations,
    checked: &Observations,
    outcomes: &Vec<bool>,
) -> (step: ReuseStep)
    ensures
        step@ == reuse_step(env@, current_out_dir@, seen@, checked@, outcomes@),
{
    if is_env_flag_set(&env.no_cache_reuse) {
        return ReuseStep::NotReused;
    }
    match find_cached_build(seen, env, current_out_dir) {
        Progress::Need(query) => ReuseStep::Search(query),
        Progress::Done(None) => ReuseStep::NotReused,
        Progress::Done(Some(cache)) => take_over(env, current_out_dir, cache, checked, outcomes),
    }
}

/// The line for Cargo about a reuse, with the text of the path that the build came from.
pub fn reuse_message(path: &str) -> (message: String)
    ensures
        message@ == REUSE_MESSAGE@ + path@,
{
    REUSE_MESSAGE.to_owned().concat(path)
}

/// The target directory of Cargo that a context belongs to.
pub open spec fn home_of(context: ContextModel) -> PathModel {
    if context.is_nested() {
        context.outer_target_root()
    } else {
        context.current_target_root
    }
}

/// Whether a build root is that of the debug or the release profile in the directory, or the one
/// that is built in, whatever the name of its profile, if it lies there.
pub open spec fn is_root_of(context: ContextModel, root: PathModel, directory: PathModel) -> bool {
    ||| is_profile_root(root, directory)
    ||| root == context.current_build_root && is_root_in(root, directory)
}

/// Whether a build root belongs to the triple of the context in its own target directory.
pub open spec fn is_own_root(context: ContextModel, root: PathModel) -> bool {
    is_root_of(context, root, context.triple_dir(home_of(context)))
}

/// Whether a build root may serve the context: its builds are for the triple of the context, and
/// it lies in the context's own target directory or in one of another worktree.
pub open spec fn may_serve(
    world: World,
    env: EnvModel,
    context: ContextModel,
    root: PathModel,
) -> bool {
    ||| is_own_root(context, root)
    ||| !is_set(env.no_worktree_cache) && exists|target_dir: PathModel|
        is_sibling_target(world, env.windows, context, target_dir) && #[trigger] is_root_in_target(
            world,
            env,
            context,
            target_dir,
            root,
        )
}

/// A build that is found is valid, lies in a package directory of this package other than that of
/// the running build, and that directory lies in a build root that may serve the context.
pub proof fn a_build_is_found_only_where_it_may_serve(
    world: World,
    env: EnvModel,
    out_dir: PathModel,
    cache: CacheModel,
)
    requires
        found_build(world, env, out_dir) == Some(cache),
    ensures
        cache == build_of_package(package_of(cache)),
        is_reusable(world, env, package_of(cache), out_dir),
        exists|root: PathModel| #[trigger]
            may_serve(world, env, context_of(out_dir, env.target)->0, root) && is_package_in(
                package_of(cache),
                root,
            ),
{
    let context = context_of(out_dir, env.target)->0;
    let cargo_root = context.cargo_root();
    let own_dir = context.triple_dir(home_of(context));
    a_context_fits_together(out_dir, env.target);
    a_build_root_is_in_its_directory(own_dir, context.profile());
    if found_in_root(world, env, cargo_root, out_dir) == Some(cache) {
        a_found_build_is_reusable(world, env, cargo_root, out_dir);
        assert(may_serve(world, env, context, cargo_root));
    } else if found_locally(world, env, context, out_dir) is Some {
        let sibling = other_root(cargo_root, context.is_release())->0;
        a_found_build_is_reusable(world, env, sibling, out_dir);
        assert(may_serve(world, env, context, sibling));
    } else {
        a_build_found_in_worktrees_may_serve(world, env, context, out_dir);
        let (target_dir, root) = choose|target_dir: PathModel, root: PathModel|
            is_sibling_target(world, env.windows, context, target_dir)
                && #[trigger] is_root_in_target(world, env, context, target_dir, root)
                && found_in_root(world, env, root, out_dir) == Some(cache);
        a_found_build_is_reusable(world, env, root, out_dir);
        assert(may_serve(world, env, context, root));
    }
}

/// A build for a triple reuses only what lies in a directory of exactly that triple: in the build
/// root of the debug or the release profile there, or in the one that is built in.
pub proof fn a_triple_is_served_by_that_triple_only(
    world: World,
    env: EnvModel,
    out_dir: PathModel,
    cache: CacheModel,
    triple: Seq<char>,
)
    requires
        found_build(world, env, out_dir) == Some(cache),
        context_of(out_dir, env.target)->0.target_triple == Some(triple),
    ensures
        exists|root: PathModel, directory: PathModel| #[trigger]
            is_root_of(context_of(out_dir, env.target)->0, root, directory) && is_named(
                directory,
                triple,
            ) && is_package_in(package_of(cache), root),
{
    let context = context_of(out_dir, env.target)->0;
    a_build_is_found_only_where_it_may_serve(world, env, out_dir, cache);
    let root = choose|root: PathModel| #[trigger]
        may_serve(world, env, context, root) && is_package_in(package_of(cache), root);
    if is_own_root(context, root) {
        let directory = context.triple_dir(home_of(context));
        assert(is_root_of(context, root, directory) && is_named(directory, triple));
    } else {
        let target_dir = choose|target_dir: PathModel|
            is_sibling_target(world, env.windows, context, target_dir)
                && #[trigger] is_root_in_target(world, env, context, target_dir, root);
        let directory = context.triple_dir(target_dir);
        assert(is_root_of(context, root, directory) && is_named(directory, triple));
    }
}

/// Whether a build root holds builds for the host: it lies in a target directory without a triple
/// or, in one of another worktree and for the profile that is built, in the directory that the
/// triple of the host names.
pub open spec fn is_host_root(
    world: World,
    env: EnvModel,
    context: ContextModel,
    target_dir: PathModel,
    root: PathModel,
) -> bool {
    ||| target_dir == home_of(context) && is_root_of(context, root, target_dir)
    ||| is_sibling_target(world, env.windows, context, target_dir) && (is_profile_root(
        root,
        target_dir,
    ) || env.target is Some && root == build_root_in(
        host_dir(world, target_dir, env.target->0),
        context.profile(),
    ))
}

/// A build for the host reuses only builds for the host. Where the triple of the host is one plain
/// name, these lie in the target directory itself: directly, or in the directory of that name.
pub proof fn the_host_is_served_by_the_host_only(
    world: World,
    env: EnvModel,
    out_dir: PathModel,
    cache: CacheModel,
)
    requires
        found_build(world, env, out_dir) == Some(cache),
        context_of(out_dir, env.target)->0.target_triple is None,
    ensures
        exists|target_dir: PathModel, root: PathModel| #[trigger]
            is_host_root(world, env, context_of(out_dir, env.target)->0, target_dir, root)
                && is_package_in(package_of(cache), root) && (env.target is None || is_plain_name(
                env.target->0,
            ) ==> is_within(root, target_dir) && (is_root_of(
                context_of(out_dir, env.target)->0,
                root,
                target_dir,
            ) || root == build_root_in(
                child(target_dir, env.target->0),
                context_of(out_dir, env.target)->0.profile(),
            ))),
{
    let context = context_of(out_dir, env.target)->0;
    a_build_is_found_only_where_it_may_serve(world, env, out_dir, cache);
    let root = choose|root: PathModel| #[trigger]
        may_serve(world, env, context, root) && is_package_in(package_of(cache), root);
    if is_own_root(context, root) {
        assert(is_host_root(world, env, context, home_of(context), root));
        a_root_is_within_its_directory(root, home_of(context));
    } else {
        let target_dir = choose|target_dir: PathModel|
            is_sibling_target(world, env.windows, context, target_dir)
                && #[trigger] is_root_in_target(world, env, context, target_dir, root);
        assert(is_host_root(world, env, context, target_dir, root));
        if is_profile_root(root, target_dir) {
            a_root_is_within_its_directory(root, target_dir);
        } else if is_plain_name(env.target->0) {
            let directory = child(target_dir, env.target->0);
            a_build_root_is_in_its_directory(directory, context.profile());
            a_root_is_within_its_directory(root, directory);
            assert(target_dir =~= root.subrange(0, target_dir.len() as int));
        }
    }
}

proof fn a_root_is_within_its_directory(root: PathModel, directory: PathModel)
    requires
        is_root_in(root, directory) || is_profile_root(root, directory),
    ensures
        is_within(root, directory),
{
    assert(directory =~= root.subrange(0, directory.len() as int));
}

/// A build never reuses itself: what is found are other paths than those that it is restored to.
pub proof fn a_build_never_reuses_itself(
    world: World,
    env: EnvModel,
    out_dir: PathModel,
    cache: CacheModel,
)
    requires
        found_build(world, env, out_dir) == Some(cache),
    ensures
        parent(out_dir) matches Some(own) && !is_same(world, env.windows, package_of(cache), own),
        cache.ktx_build_dir != build_in(out_dir).ktx_build_dir,
        cache.ktx_source_dir != build_in(out_dir).ktx_source_dir,
        cache.bindings_file != build_in(out_dir).bindings_file,
{
    a_build_is_found_only_where_it_may_serve(world, env, out_dir, cache);
    let package = package_of(cache);
    let found_dir = child(package, OUTPUT_DIR_NAME@);
    assert(found_dir.drop_last() =~= package);
    assert(found_dir != out_dir);
    assert(cache.ktx_build_dir.drop_last() =~= found_dir);
    assert(cache.ktx_source_dir.drop_last() =~= found_dir);
    assert(cache.bindings_file.drop_last() =~= found_dir);
    assert(build_in(out_dir).ktx_build_dir.drop_last() =~= out_dir);
    assert(build_in(out_dir).ktx_source_dir.drop_last() =~= out_dir);
    assert(build_in(out_dir).bindings_file.drop_last() =~= out_dir);
}

/// The same profile comes before the other one, and the own target directory before the other
/// worktrees.
pub proof fn what_is_close_comes_first(world: World, env: EnvModel, out_dir: PathModel)
    ensures
        context_of(out_dir, env.target) matches Some(context) ==> {
            &&& found_in_root(world, env, context.cargo_root(), out_dir) is Some ==> found_build(
                world,
                env,
                out_dir,
            ) == found_in_root(world, env, context.cargo_root(), out_dir)
            &&& found_locally(world, env, context, out_dir) is Some ==> found_build(
                world,
                env,
                out_dir,
            ) == found_locally(world, env, context, out_dir)
        },
{
}

/// Where reuse is turned off, nothing is asked, nothing is done and nothing is reused.
pub proof fn reuse_can_be_turned_off(
    env: EnvModel,
    out_dir: PathModel,
    seen: World,
    checked: World,
    outcomes: Seq<bool>,
)
    requires
        is_set(env.no_cache_reuse),
    ensures
        reuse_step(env, out_dir, seen, checked, outcomes) == ReuseModel::NotReused,
{
}

/// Where the output directory does not lie in a build root of Cargo, nothing is asked or reused.
pub proof fn an_unknown_layout_is_left_alone(
    env: EnvModel,
    out_dir: PathModel,
    seen: World,
    checked: World,
    outcomes: Seq<bool>,
)
    requires
        context_of(out_dir, env.target) is None,
    ensures
        reuse_step(env, out_dir, seen, checked, outcomes) == ReuseModel::NotReused,
{
}

/// Whether the outcomes are those of effects that were each the next step of the reuse.
pub open spec fn is_reuse_history(
    env: EnvModel,
    out_dir: PathModel,
    seen: World,
    checked: World,
    outcomes: Seq<bool>,
) -> bool {
    forall|i: int|
        0 <= i < outcomes.len() ==> #[trigger] reuse_step(
            env,
            out_dir,
            seen,
            checked,
            outcomes.take(i),
        ) is Perform
}

/// Before anything on disk is changed or a build counts as reused, one was found, and found valid
/// in the search and once more after it.
pub proof fn only_a_valid_build_is_taken_over(
    env: EnvModel,
    out_dir: PathModel,
    seen: World,
    checked: World,
    outcomes: Seq<bool>,
)
    ensures
        ({
            let step = reuse_step(env, out_dir, seen, checked, outcomes);
            step is Perform || step is Reused ==> {
                &&& found_build(seen, env, out_dir) matches Some(cache)
                &&& is_valid_cache(seen, os_name(env), cache)
                &&& is_valid_cache(checked, os_name(env), cache)
                &&& step is Reused ==> step == ReuseModel::Reused(cache)
            }
        }),
{
    if let Some(cache) = found_build(seen, env, out_dir) {
        a_build_is_found_only_where_it_may_serve(seen, env, out_dir, cache);
    }
}

proof fn a_reuse_restores(
    env: EnvModel,
    out_dir: PathModel,
    seen: World,
    checked: World,
    outcomes: Seq<bool>,
    cache: CacheModel,
)
    requires
        is_reuse_history(env, out_dir, seen, checked, outcomes),
        found_build(seen, env, out_dir) == Some(cache),
        outcomes.len() > 0,
    ensures
        is_history(cache, out_dir, outcomes),
        forall|i: int|
            0 <= i <= outcomes.len() ==> reuse_step(
                env,
                out_dir,
                seen,
                checked,
                #[trigger] outcomes.take(i),
            ) == match restore_step(cache, out_dir, outcomes.take(i)) {
                StepModel::Perform(effect) => ReuseModel::Perform(effect),
                StepModel::Finished(true) => ReuseModel::Reused(cache),
                StepModel::Finished(false) => ReuseModel::NotReused,
            },
{
    assert(reuse_step(env, out_dir, seen, checked, outcomes.take(0)) is Perform);
    assert forall|i: int| 0 <= i < outcomes.len() implies #[trigger] restore_step(
        cache,
        out_dir,
        outcomes.take(i),
    ) is Perform by {
        assert(reuse_step(env, out_dir, seen, checked, outcomes.take(i)) is Perform);
    }
}

/// A reused build is complete: everything was copied that was to be, and with success.
pub proof fn a_reused_build_is_complete(
    env: EnvModel,
    out_dir: PathModel,
    seen: World,
    checked: World,
    outcomes: Seq<bool>,
    cache: CacheModel,
)
    requires
        is_reuse_history(env, out_dir, seen, checked, outcomes),
        reuse_step(env, out_dir, seen, checked, outcomes) == ReuseModel::Reused(cache),
    ensures
        is_complete(outcomes),
        outcomes.len() == copying(cache, out_dir, has_headers(outcomes)).len(),
        forall|i: int|
            0 <= i < outcomes.len() && is_copy(
                #[trigger] copying(cache, out_dir, has_headers(outcomes))[i],
            ) ==> outcomes[i],
        forall|i: int|
            0 <= i < outcomes.len() ==> reuse_step(env, out_dir, seen, checked, outcomes.take(i))
                == ReuseModel::Perform(
                #[trigger] copying(cache, out_dir, has_headers(outcomes))[i],
            ),
{
    assert(outcomes.take(outcomes.len() as int) =~= outcomes);
    a_reuse_restores(env, out_dir, seen, checked, outcomes, cache);
    a_finished_restore_is_complete(cache, out_dir, outcomes);
    assert forall|i: int| 0 <= i < outcomes.len() implies reuse_step(
        env,
        out_dir,
        seen,
        checked,
        outcomes.take(i),
    ) == ReuseModel::Perform(
        #[trigger] copying(cache, out_dir, has_headers(outcomes))[i],
    ) by {
        assert(restore_step(cache, out_dir, outcomes.take(i)) is Perform);
    }
}

/// A reuse that is given up after it has begun to change something has, as its last three effects,
/// removed everything that it may have written.
pub proof fn a_reuse_that_fails_is_rolled_back(
    env: EnvModel,
    out_dir: PathModel,
    seen: World,
    checked: World,
    outcomes: Seq<bool>,
)
    requires
        is_reuse_history(env, out_dir, seen, checked, outcomes),
        reuse_step(env, out_dir, seen, checked, outcomes) == ReuseModel::NotReused,
        outcomes.len() > 0,
    ensures
        !is_complete(outcomes),
        outcomes.len() > clearing(out_dir).len(),
        forall|i: int|
            0 <= i < clearing(out_dir).len() ==> reuse_step(
                env,
                out_dir,
                seen,
                checked,
                outcomes.take(outcomes.len() - clearing(out_dir).len() + i),
            ) == ReuseModel::Perform(#[trigger] clearing(out_dir)[i]),
{
    assert(reuse_step(env, out_dir, seen, checked, outcomes.take(0)) is Perform);
    let cache = found_build(seen, env, out_dir)->0;
    assert(outcomes.take(outcomes.len() as int) =~= outcomes);
    a_reuse_restores(env, out_dir, seen, checked, outcomes, cache);
    a_failed_restore_is_rolled_back(cache, out_dir, outcomes);
    let start = outcomes.len() - clearing(out_dir).len();
    assert forall|i: int| 0 <= i < clearing(out_dir).len() implies reuse_step(
        env,
        out_dir,
        seen,
        checked,
        outcomes.take(start + i),
    ) == ReuseModel::Perform(#[trigger] clearing(out_dir)[i]) by {
        assert(restore_step(cache, out_dir, outcomes.take(start + i)) is Perform);
    }
}

/// How a reuse goes on, for every state that it can be in. Where it is not turned off, an open query
/// of the search is asked, and where nothing is found nothing is reused. Of a build that was found,
/// an open query of the check is asked, and what is then invalid is not reused. What is valid is
/// restored: each effect of the restore is performed, and its end is the end of the reuse, with
/// success or without.
pub proof fn a_reuse_goes_on_until_it_is_decided(
    env: EnvModel,
    out_dir: PathModel,
    seen: World,
    checked: World,
    outcomes: Seq<bool>,
    cache: CacheModel,
    query: QueryModel,
    effect: EffectModel,
)
    requires
        !is_set(env.no_cache_reuse),
    ensures
        ({
            let step = reuse_step(env, out_dir, seen, checked, outcomes);
            let asked = build_asked(seen, env, out_dir);
            let found = found_build(seen, env, out_dir);
            let open = first_unseen(seen, asked);
            let check = first_unseen(checked, cache_asked(checked, os_name(env), cache));
            let valid = is_valid_cache(checked, os_name(env), cache);
            let restore = restore_step(cache, out_dir, outcomes);
            &&& step == ReuseModel::Search(query) <==> open == Some(query)
            &&& open is None && found is None ==> step == ReuseModel::NotReused
            &&& open is None && found == Some(cache) ==> {
                &&& step == ReuseModel::Check(query) <==> check == Some(query)
                &&& check is None && !valid ==> step == ReuseModel::NotReused
                &&& check is None && valid ==> {
                    &&& step == ReuseModel::Perform(effect) <==> restore == StepModel::Perform(
                        effect,
                    )
                    &&& step == ReuseModel::Reused(cache) <==> restore == StepModel::Finished(true)
                    &&& step == ReuseModel::NotReused <==> restore == StepModel::Finished(false)
                }
            }
        }),
{
}

/// A build that is found, is valid in the check and of which every copy succeeds is reused, whatever
/// else the environment says; it takes one effect more where there are headers.
pub proof fn a_valid_build_is_reused(
    env: EnvModel,
    out_dir: PathModel,
    seen: World,
    checked: World,
    outcomes: Seq<bool>,
    cache: CacheModel,
)
    requires
        !is_set(env.no_cache_reuse),
        first_unseen(seen, build_asked(seen, env, out_dir)) is None,
        found_build(seen, env, out_dir) == Some(cache),
        first_unseen(checked, cache_asked(checked, os_name(env), cache)) is None,
        is_valid_cache(checked, os_name(env), cache),
        outcomes.len() == 6 && !outcomes[4] || outcomes.len() == 7 && outcomes[4],
        forall|i: int| 3 <= i < outcomes.len() && i != 4 ==> #[trigger] outcomes[i],
    ensures
        reuse_step(env, out_dir, seen, checked, outcomes) == ReuseModel::Reused(cache),
{
    assert(outcomes[3] && outcomes[5] && outcomes[outcomes.len() - 1]);
}

/// A cached build is reported by the message that users see, followed by where it came from.
pub proof fn the_message_is_the_one_users_see()
    ensures
        REUSE_MESSAGE@
            == "cargo:warning=ktx2-rw: Successfully reused cached build artifacts from "@,
{
}

} // verus!
