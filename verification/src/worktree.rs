//! The search for a cached build in the other worktrees of the repository.
use vstd::prelude::*;

use crate::cache::{CacheModel, CachedBuild};
use crate::context::{build_root_in, profile_dir};
use crate::context::{is_custom_target, is_custom_target_name, is_profile_root, is_target_name};
use crate::context::{BuildContext, ContextModel, BUILD_DIR, TARGET_DIR};
use crate::environment::{BuildEnv, EnvModel};
use crate::git::{find_git_root, find_sibling_worktrees};
use crate::git::{git_root, git_root_asked, sibling_worktrees, sibling_worktrees_asked};
use crate::observe::{also, each_asked, entries, first_unseen, is_dir, resolve, settle};
use crate::observe::{each_asked_unfolds, first_found, first_found_asked, first_found_unfolds};
use crate::observe::{first_found_comes_from_an_item, group_settle};
use crate::observe::{Observations, Progress, QueryModel, World};
use crate::path::{child, entry, file_name, parent};
use crate::path::{HostPath, Name, NameModel, PathModel};
use crate::search::{found_in_root, root_asked, search_cache_in_directory};
use crate::text::{is_plain_name, is_single_name};

verus! {

/// The custom target directory of that name, if there is one, as a function of the name.
pub open spec fn custom_target(world: World, worktree: PathModel) -> spec_fn(NameModel) -> Option<
    PathModel,
> {
    |name: NameModel|
        if is_dir(world, entry(worktree, name)) && is_custom_target_name(name) {
            Some(entry(worktree, name))
        } else {
            None
        }
}

pub open spec fn custom_target_asked(worktree: PathModel) -> spec_fn(NameModel) -> Seq<QueryModel> {
    |name: NameModel| seq![QueryModel::IsDir(entry(worktree, name))]
}

pub open spec fn custom_targets(world: World, worktree: PathModel) -> Seq<PathModel> {
    match entries(world, worktree) {
        Some(names) => names.filter_map(custom_target(world, worktree)),
        None => Seq::empty(),
    }
}

pub open spec fn standard_target(world: World, worktree: PathModel) -> Seq<PathModel> {
    if is_dir(world, child(worktree, TARGET_DIR@)) {
        seq![child(worktree, TARGET_DIR@)]
    } else {
        Seq::empty()
    }
}

/// The target directories of a worktree: `target`, then every `target-*`.
pub open spec fn target_directories(world: World, worktree: PathModel) -> Seq<PathModel> {
    standard_target(world, worktree) + custom_targets(world, worktree)
}

pub open spec fn target_directories_asked(world: World, worktree: PathModel) -> Seq<QueryModel> {
    seq![QueryModel::IsDir(child(worktree, TARGET_DIR@))] + (seq![QueryModel::Entries(worktree)]
        + match entries(world, worktree) {
        Some(names) => each_asked(names, custom_target_asked(worktree)),
        None => Seq::empty(),
    })
}

/// The directory that the triple of the host names in a target directory.
pub open spec fn host_dir(world: World, target_dir: PathModel, host: Seq<char>) -> PathModel {
    if is_plain_name(host) {
        child(target_dir, host)
    } else {
        resolve(world, target_dir, host)
    }
}

pub open spec fn host_dir_asked(target_dir: PathModel, host: Seq<char>) -> Seq<QueryModel> {
    also(!is_plain_name(host), seq![QueryModel::Resolve(target_dir, host)])
}

/// The build to reuse below the directory of a host build that was given its triple all the same.
pub open spec fn found_for_explicit_host(
    world: World,
    env: EnvModel,
    context: ContextModel,
    target_dir: PathModel,
    out_dir: PathModel,
) -> Option<CacheModel> {
    if context.target_triple is None && env.target is Some {
        found_in_root(
            world,
            env,
            build_root_in(host_dir(world, target_dir, env.target->0), context.profile()),
            out_dir,
        )
    } else {
        None
    }
}

pub open spec fn explicit_host_asked(
    world: World,
    env: EnvModel,
    context: ContextModel,
    target_dir: PathModel,
    out_dir: PathModel,
) -> Seq<QueryModel> {
    also(
        context.target_triple is None && env.target is Some,
        host_dir_asked(target_dir, env.target->0) + root_asked(
            world,
            env,
            build_root_in(host_dir(world, target_dir, env.target->0), context.profile()),
            out_dir,
        ),
    )
}

/// The build to reuse in a target directory, as a function of the directory. Only directories of
/// the triple that is built for are searched: those of the same profile first.
pub open spec fn found_in_target(
    world: World,
    env: EnvModel,
    context: ContextModel,
    out_dir: PathModel,
) -> spec_fn(PathModel) -> Option<CacheModel> {
    |target_dir: PathModel|
        {
            let dir = context.triple_dir(target_dir);
            match found_in_root(world, env, build_root_in(dir, context.profile()), out_dir) {
                Some(cache) => Some(cache),
                None => match found_in_root(
                    world,
                    env,
                    build_root_in(dir, context.other_profile()),
                    out_dir,
                ) {
                    Some(cache) => Some(cache),
                    None => found_for_explicit_host(world, env, context, target_dir, out_dir),
                },
            }
        }
}

pub open spec fn target_asked(
    world: World,
    env: EnvModel,
    context: ContextModel,
    out_dir: PathModel,
) -> spec_fn(PathModel) -> Seq<QueryModel> {
    |target_dir: PathModel|
        {
            let dir = context.triple_dir(target_dir);
            let primary = build_root_in(dir, context.profile());
            let sibling = build_root_in(dir, context.other_profile());
            root_asked(world, env, primary, out_dir) + also(
                found_in_root(world, env, primary, out_dir) is None,
                root_asked(world, env, sibling, out_dir) + also(
                    found_in_root(world, env, sibling, out_dir) is None,
                    explicit_host_asked(world, env, context, target_dir, out_dir),
                ),
            )
        }
}

/// The build to reuse in a worktree, as a function of the worktree.
pub open spec fn found_in_worktree(
    world: World,
    env: EnvModel,
    context: ContextModel,
    out_dir: PathModel,
) -> spec_fn(PathModel) -> Option<CacheModel> {
    |worktree: PathModel|
        first_found(
            target_directories(world, worktree),
            found_in_target(world, env, context, out_dir),
        )
}

pub open spec fn worktree_asked(
    world: World,
    env: EnvModel,
    context: ContextModel,
    out_dir: PathModel,
) -> spec_fn(PathModel) -> Seq<QueryModel> {
    |worktree: PathModel|
        target_directories_asked(world, worktree) + first_found_asked(
            target_directories(world, worktree),
            found_in_target(world, env, context, out_dir),
            target_asked(world, env, context, out_dir),
        )
}

/// The build to reuse in the other worktrees of the repository.
pub open spec fn found_in_worktrees(
    world: World,
    env: EnvModel,
    context: ContextModel,
    out_dir: PathModel,
) -> Option<CacheModel> {
    match git_root(world, context.current_target_root) {
        Some(root) => first_found(
            sibling_worktrees(world, env.windows, root),
            found_in_worktree(world, env, context, out_dir),
        ),
        None => None,
    }
}

pub open spec fn worktrees_asked(
    world: World,
    env: EnvModel,
    context: ContextModel,
    out_dir: PathModel,
) -> Seq<QueryModel> {
    git_root_asked(world, context.current_target_root) + match git_root(
        world,
        context.current_target_root,
    ) {
        Some(root) => sibling_worktrees_asked(world, env.windows, root) + first_found_asked(
            sibling_worktrees(world, env.windows, root),
            found_in_worktree(world, env, context, out_dir),
            worktree_asked(world, env, context, out_dir),
        ),
        None => Seq::empty(),
    }
}

fn find_custom_targets(
    seen: &Observations,
    worktree: &HostPath,
    names: &Vec<Name>,
) -> (found: Progress<Vec<HostPath>>)
    ensures
        found@ == settle(
            seen@,
            each_asked(names.deep_view(), custom_target_asked(worktree@)),
            names.deep_view().filter_map(custom_target(seen@, worktree@)),
        ),
{
    let ghost all = names.deep_view();
    let ghost asked = custom_target_asked(worktree@);
    let ghost f = custom_target(seen@, worktree@);
    let mut found: Vec<HostPath> = Vec::new();
    let mut i: usize = 0;
    assert(all.skip(0) =~= all);
    assert(found.deep_view() =~= all.take(0).filter_map(f));
    while i < names.len()
        invariant
            i <= names@.len(),
            all == names.deep_view(),
            asked == custom_target_asked(worktree@),
            f == custom_target(seen@, worktree@),
            first_unseen(seen@, each_asked(all, asked)) == first_unseen(
                seen@,
                each_asked(all.skip(i as int), asked),
            ),
            found.deep_view() == all.take(i as int).filter_map(f),
        decreases names.len() - i,
    {
        let ghost before = found.deep_view();
        proof {
            each_asked_unfolds(seen@, all, i as int, asked);
            all.lemma_filter_map_take_succ(f, i as int);
            assert(all[i as int] == names[i as int]@);
        }
        let path = worktree.entry(&names[i]);
        match seen.is_dir(&path) {
            Progress::Done(true) if is_custom_target(&names[i]) => {
                assert(f(all[i as int]) == Some(path@));
                found.push(path);
                assert(found.deep_view() =~= before + seq![path@]);
            },
            Progress::Done(_) => {
                assert(f(all[i as int]) == None::<PathModel>);
                assert(found.deep_view() =~= before + Seq::empty());
            },
            Progress::Need(query) => return Progress::Need(query),
        }
        i = i + 1;
    }
    proof {
        broadcast use group_settle;

        assert(all.take(i as int) =~= all);
        assert(all.skip(i as int) =~= Seq::empty());
    }
    Progress::Done(found)
}

/// Finds the target directories of a worktree: the standard `target` and custom `target-*`.
pub fn find_target_directories(seen: &Observations, worktree_dir: &HostPath) -> (found: Progress<
    Vec<HostPath>,
>)
    ensures
        found@ == settle(
            seen@,
            target_directories_asked(seen@, worktree_dir@),
            target_directories(seen@, worktree_dir@),
        ),
{
    broadcast use group_settle;

    let mut found: Vec<HostPath> = Vec::new();
    let standard = worktree_dir.child(TARGET_DIR);
    match seen.is_dir(&standard) {
        Progress::Done(true) => {
            found.push(standard);
        },
        Progress::Done(false) => {},
        Progress::Need(query) => return Progress::Need(query),
    }
    assert(found.deep_view() =~= standard_target(seen@, worktree_dir@));
    let names = match seen.entries(worktree_dir) {
        Progress::Done(Some(names)) => names,
        Progress::Done(None) => {
            assert(found.deep_view() =~= found.deep_view() + custom_targets(seen@, worktree_dir@));
            return Progress::Done(found);
        },
        Progress::Need(query) => return Progress::Need(query),
    };
    match find_custom_targets(seen, worktree_dir, names) {
        Progress::Done(mut custom) => {
            let ghost first = found.deep_view();
            let ghost second = custom.deep_view();
            found.append(&mut custom);
            assert(found.deep_view() =~= first + second);
            Progress::Done(found)
        },
        Progress::Need(query) => Progress::Need(query),
    }
}

fn find_host_dir(seen: &Observations, target_dir: &HostPath, host: &str) -> (found: Progress<
    HostPath,
>)
    ensures
        found@ == settle(
            seen@,
            host_dir_asked(target_dir@, host@),
            host_dir(seen@, target_dir@, host@),
        ),
{
    broadcast use group_settle;

    if is_single_name(host) {
        Progress::Done(target_dir.child(host))
    } else {
        seen.resolve(target_dir, host)
    }
}

fn search_target(
    seen: &Observations,
    env: &BuildEnv,
    context: &BuildContext,
    target_dir: &HostPath,
    out_dir: &HostPath,
) -> (found: Progress<Option<CachedBuild>>)
    ensures
        found@ == settle(
            seen@,
            target_asked(seen@, env@, context@, out_dir@)(target_dir@),
            found_in_target(seen@, env@, context@, out_dir@)(target_dir@),
        ),
{
    broadcast use group_settle;

    let profile = profile_dir(context.is_release());
    let other_profile = profile_dir(!context.is_release());
    let dir = match &context.target_triple {
        Some(triple) => target_dir.child(triple.as_str()),
        None => target_dir.clone(),
    };
    let primary = dir.child(profile).child(BUILD_DIR);
    match search_cache_in_directory(seen, env, &primary, out_dir) {
        Progress::Done(None) => {},
        other => return other,
    }
    let sibling = dir.child(other_profile).child(BUILD_DIR);
    match search_cache_in_directory(seen, env, &sibling, out_dir) {
        Progress::Done(None) => {},
        other => return other,
    }
    if context.target_triple.is_some() {
        return Progress::Done(None);
    }
    match &env.target {
        Some(host) => {
            let explicit = match find_host_dir(seen, target_dir, host.as_str()) {
                Progress::Done(path) => path,
                Progress::Need(query) => return Progress::Need(query),
            };
            let root = explicit.child(profile).child(BUILD_DIR);
            search_cache_in_directory(seen, env, &root, out_dir)
        },
        None => Progress::Done(None),
    }
}

fn search_targets(
    seen: &Observations,
    env: &BuildEnv,
    context: &BuildContext,
    targets: &Vec<HostPath>,
    out_dir: &HostPath,
) -> (found: Progress<Option<CachedBuild>>)
    ensures
        found@ == settle(
            seen@,
            first_found_asked(
                targets.deep_view(),
                found_in_target(seen@, env@, context@, out_dir@),
                target_asked(seen@, env@, context@, out_dir@),
            ),
            first_found(targets.deep_view(), found_in_target(seen@, env@, context@, out_dir@)),
        ),
{
    let ghost all = targets.deep_view();
    let ghost find = found_in_target(seen@, env@, context@, out_dir@);
    let ghost asked = target_asked(seen@, env@, context@, out_dir@);
    let mut i: usize = 0;
    assert(all.skip(0) =~= all);
    while i < targets.len()
        invariant
            i <= targets@.len(),
            all == targets.deep_view(),
            find == found_in_target(seen@, env@, context@, out_dir@),
            asked == target_asked(seen@, env@, context@, out_dir@),
            settle(seen@, first_found_asked(all, find, asked), first_found(all, find)) == settle(
                seen@,
                first_found_asked(all.skip(i as int), find, asked),
                first_found(all.skip(i as int), find),
            ),
        decreases targets.len() - i,
    {
        proof {
            first_found_unfolds(seen@, all, i as int, find, asked);
        }
        match search_target(seen, env, context, &targets[i], out_dir) {
            Progress::Done(None) => {},
            other => return other,
        }
        i = i + 1;
    }
    proof {
        broadcast use group_settle;

        assert(all.skip(i as int) =~= Seq::empty());
    }
    Progress::Done(None)
}

fn search_worktree(
    seen: &Observations,
    env: &BuildEnv,
    context: &BuildContext,
    worktree: &HostPath,
    out_dir: &HostPath,
) -> (found: Progress<Option<CachedBuild>>)
    ensures
        found@ == settle(
            seen@,
            worktree_asked(seen@, env@, context@, out_dir@)(worktree@),
            found_in_worktree(seen@, env@, context@, out_dir@)(worktree@),
        ),
{
    broadcast use group_settle;

    match find_target_directories(seen, worktree) {
        Progress::Done(targets) => search_targets(seen, env, context, &targets, out_dir),
        Progress::Need(query) => Progress::Need(query),
    }
}

fn search_worktree_list(
    seen: &Observations,
    env: &BuildEnv,
    context: &BuildContext,
    list: &Vec<HostPath>,
    out_dir: &HostPath,
) -> (found: Progress<Option<CachedBuild>>)
    ensures
        found@ == settle(
            seen@,
            first_found_asked(
                list.deep_view(),
                found_in_worktree(seen@, env@, context@, out_dir@),
                worktree_asked(seen@, env@, context@, out_dir@),
            ),
            first_found(list.deep_view(), found_in_worktree(seen@, env@, context@, out_dir@)),
        ),
{
    let ghost all = list.deep_view();
    let ghost find = found_in_worktree(seen@, env@, context@, out_dir@);
    let ghost asked = worktree_asked(seen@, env@, context@, out_dir@);
    let mut i: usize = 0;
    assert(all.skip(0) =~= all);
    while i < list.len()
        invariant
            i <= list@.len(),
            all == list.deep_view(),
            find == found_in_worktree(seen@, env@, context@, out_dir@),
            asked == worktree_asked(seen@, env@, context@, out_dir@),
            settle(seen@, first_found_asked(all, find, asked), first_found(all, find)) == settle(
                seen@,
                first_found_asked(all.skip(i as int), find, asked),
                first_found(all.skip(i as int), find),
            ),
        decreases list.len() - i,
    {
        proof {
            first_found_unfolds(seen@, all, i as int, find, asked);
        }
        match search_worktree(seen, env, context, &list[i], out_dir) {
            Progress::Done(None) => {},
            other => return other,
        }
        i = i + 1;
    }
    proof {
        broadcast use group_settle;

        assert(all.skip(i as int) =~= Seq::empty());
    }
    Progress::Done(None)
}

/// Searches the other worktrees of the repository for a build to reuse.
pub fn search_cache_in_worktrees(
    seen: &Observations,
    env: &BuildEnv,
    current_out_dir: &HostPath,
    context: &BuildContext,
) -> (found: Progress<Option<CachedBuild>>)
    ensures
        found@ == settle(
            seen@,
            worktrees_asked(seen@, env@, context@, current_out_dir@),
            found_in_worktrees(seen@, env@, context@, current_out_dir@),
        ),
{
    broadcast use group_settle;

    let root = match find_git_root(seen, &context.current_target_root) {
        Progress::Done(Some(root)) => root,
        Progress::Done(None) => return Progress::Done(None),
        Progress::Need(query) => return Progress::Need(query),
    };
    let list = match find_sibling_worktrees(seen, env.windows, &root) {
        Progress::Done(list) => list,
        Progress::Need(query) => return Progress::Need(query),
    };
    search_worktree_list(seen, env, context, &list, current_out_dir)
}

/// What is searched in a worktree is a directory in it, named `target` or `target-` and more; and
/// every such directory that is listed is searched.
pub proof fn target_directories_are_named_so(world: World, worktree: PathModel, path: PathModel)
    ensures
        target_directories(world, worktree).contains(path) ==> {
            &&& is_dir(world, path)
            &&& parent(path) == Some(worktree)
            &&& file_name(path) matches Some(name)
            &&& is_target_name(name)
        },
        path == child(worktree, TARGET_DIR@) && is_dir(world, path) ==> target_directories(
            world,
            worktree,
        ).contains(path),
        is_dir(world, path) && parent(path) == Some(worktree) && (entries(
            world,
            worktree,
        ) matches Some(names) && file_name(path) matches Some(name) && names.contains(name)
            && is_custom_target_name(name)) ==> target_directories(world, worktree).contains(path),
{
    let all = target_directories(world, worktree);
    let first = standard_target(world, worktree);
    let custom = custom_targets(world, worktree);
    let f = custom_target(world, worktree);
    if all.contains(path) {
        let i = choose|i: int| 0 <= i < all.len() && all[i] == path;
        if i < first.len() {
            assert(child(worktree, TARGET_DIR@).drop_last() =~= worktree);
        } else {
            assert(custom[i - first.len()] == path);
            let names = entries(world, worktree)->0;
            names.lemma_filter_map_contains(f, path);
            let name = choose|name: NameModel| #[trigger]
                names.contains(name) && f(name) == Some(path);
            assert(entry(worktree, name).drop_last() =~= worktree);
        }
    }
    if path == child(worktree, TARGET_DIR@) && is_dir(world, path) {
        assert(all[0] == path);
    }
    if let (Some(names), Some(name)) = (entries(world, worktree), file_name(path)) {
        if is_dir(world, path) && parent(path) == Some(worktree) && names.contains(name)
            && is_custom_target_name(name) {
            assert(entry(worktree, name) =~= path);
            filter_map_keeps(names, f, name, path);
            let i = choose|i: int| 0 <= i < custom.len() && custom[i] == path;
            assert(all[first.len() + i] == path);
        }
    }
}

proof fn filter_map_keeps<A, B>(items: Seq<A>, f: spec_fn(A) -> Option<B>, item: A, value: B)
    requires
        items.contains(item),
        f(item) == Some(value),
    ensures
        items.filter_map(f).contains(value),
    decreases items.len(),
{
    let rest = items.drop_last();
    let kept = items.filter_map(f);
    if items.last() == item {
        assert(kept.last() == value);
    } else {
        let i = choose|i: int| 0 <= i < items.len() && items[i] == item;
        assert(rest[i] == item);
        filter_map_keeps(rest, f, item, value);
        let k = choose|k: int| 0 <= k < rest.filter_map(f).len() && rest.filter_map(f)[k] == value;
        assert(kept[k] == value);
    }
}

/// Whether a directory is a target directory of another worktree of the repository.
pub open spec fn is_sibling_target(
    world: World,
    windows: bool,
    context: ContextModel,
    target_dir: PathModel,
) -> bool {
    &&& git_root(world, context.current_target_root) matches Some(root)
    &&& exists|worktree: PathModel|
        sibling_worktrees(world, windows, root).contains(worktree) && #[trigger] target_directories(
            world,
            worktree,
        ).contains(target_dir)
}

/// Whether a build root in a target directory of another worktree may serve the context: its
/// builds are for the triple of the context or, for a host build, for the host named explicitly and
/// the profile that is built.
pub open spec fn is_root_in_target(
    world: World,
    env: EnvModel,
    context: ContextModel,
    target_dir: PathModel,
    root: PathModel,
) -> bool {
    ||| is_profile_root(root, context.triple_dir(target_dir))
    ||| context.target_triple is None && env.target is Some && root == build_root_in(
        host_dir(world, target_dir, env.target->0),
        context.profile(),
    )
}

/// What is found in the other worktrees lies in a build root that may serve the context, in a
/// target directory of one of them.
pub proof fn a_build_found_in_worktrees_may_serve(
    world: World,
    env: EnvModel,
    context: ContextModel,
    out_dir: PathModel,
)
    ensures
        found_in_worktrees(world, env, context, out_dir) matches Some(cache) ==> exists|
            target_dir: PathModel,
            root: PathModel,
        |
            is_sibling_target(world, env.windows, context, target_dir)
                && #[trigger] is_root_in_target(world, env, context, target_dir, root)
                && found_in_root(world, env, root, out_dir) == Some(cache),
{
    if let Some(cache) = found_in_worktrees(world, env, context, out_dir) {
        let git = git_root(world, context.current_target_root)->0;
        let list = sibling_worktrees(world, env.windows, git);
        let find = found_in_worktree(world, env, context, out_dir);
        first_found_comes_from_an_item(list, find);
        let i = choose|i: int| 0 <= i < list.len() && #[trigger] find(list[i]) == Some(cache);
        let targets = target_directories(world, list[i]);
        let find_target = found_in_target(world, env, context, out_dir);
        first_found_comes_from_an_item(targets, find_target);
        let k = choose|k: int|
            0 <= k < targets.len() && #[trigger] find_target(targets[k]) == Some(cache);
        let target_dir = targets[k];
        let dir = context.triple_dir(target_dir);
        assert(list.contains(list[i]));
        assert(targets.contains(target_dir));
        assert(is_sibling_target(world, env.windows, context, target_dir));
        let explicit = host_dir(world, target_dir, env.target->0);
        let primary = build_root_in(dir, context.profile());
        let sibling = build_root_in(dir, context.other_profile());
        let host = build_root_in(explicit, context.profile());
        if found_in_root(world, env, primary, out_dir) == Some(cache) {
            assert(is_root_in_target(world, env, context, target_dir, primary));
        } else if found_in_root(world, env, sibling, out_dir) == Some(cache) {
            assert(is_root_in_target(world, env, context, target_dir, sibling));
        } else {
            assert(is_root_in_target(world, env, context, target_dir, host));
        }
    }
}

} // verus!
