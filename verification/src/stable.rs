//! A decision from some answers is the one from all answers, as far as it gets.
use vstd::prelude::*;

use crate::cache::{cache_asked, has_library, is_valid_cache, is_valid_file, library_asked};
use crate::cache::{framework_asked, is_valid_framework};
use crate::cache::{build_of_package, either_file_asked, valid_file_asked, CacheModel};
use crate::cache::{INCLUDE_DIR_NAME, KTX_HEADER_NAME, LIB_DIR_NAME};
use crate::context::{build_root_in, context_of, ContextModel};
use crate::environment::{os_name, EnvModel};
use crate::git::{common_git_dir, common_git_dir_asked, linked_worktrees, linked_worktrees_asked};
use crate::git::{directory_named, directory_named_asked, linked_worktree, linked_worktree_asked};
use crate::git::{all_worktrees, elsewhere_asked, git_root, git_root_asked, is_elsewhere};
use crate::git::{listed_paths, listed_worktrees, listed_worktrees_asked, WORKTREES_DIR};
use crate::git::{recorded_worktrees, recorded_worktrees_asked};
use crate::git::{sibling_worktrees, sibling_worktrees_asked};
use crate::observe::{agrees, first_found, first_found_asked, first_unseen, group_settle, settle};
use crate::observe::{also, each_asked, entries, is_dir, is_file, worktrees};
use crate::observe::settle_waits_only_for_what_is_open;
use crate::observe::{AnswerModel, ProgressModel, QueryModel, World};
use crate::path::{child, entry, parent, NameModel, PathModel};
use crate::reuse::{build_asked, found_build, other_root};
use crate::search::{found_in_root, is_same, root_asked, same_asked, PACKAGE_NAME};
use crate::search::{first_in_directory, in_directory_asked, is_reusable, reusable_asked};
use crate::search::{reusable_entry, reusable_entry_asked};
use crate::text::text_of;
use crate::worktree::{custom_target, custom_target_asked, found_in_target, target_asked};
use crate::worktree::{found_in_worktree, found_in_worktrees, worktree_asked, worktrees_asked};
use crate::worktree::{host_dir, target_directories, target_directories_asked};

verus! {

proof fn first_found_is_stable<A, B>(
    seen: World,
    items: Seq<A>,
    find: spec_fn(A) -> Option<B>,
    asked: spec_fn(A) -> Seq<QueryModel>,
    find_all: spec_fn(A) -> Option<B>,
    asked_all: spec_fn(A) -> Seq<QueryModel>,
)
    requires
        forall|item: A| #[trigger]
            settle(seen, asked(item), find(item)) == settle(seen, asked_all(item), find_all(item)),
    ensures
        settle(seen, first_found_asked(items, find, asked), first_found(items, find)) == settle(
            seen,
            first_found_asked(items, find_all, asked_all),
            first_found(items, find_all),
        ),
    decreases items.len(),
{
    broadcast use group_settle;

    if items.len() > 0 {
        first_found_is_stable(seen, items.drop_first(), find, asked, find_all, asked_all);
        let item = items[0];
        assert(settle(seen, asked(item), find(item)) == settle(
            seen,
            asked_all(item),
            find_all(item),
        ));
    }
}

proof fn valid_file_is_stable(seen: World, world: World, path: PathModel)
    requires
        agrees(seen, world),
    ensures
        settle(seen, valid_file_asked(seen, path), is_valid_file(seen, path)) == settle(
            seen,
            valid_file_asked(world, path),
            is_valid_file(world, path),
        ),
{
    broadcast use group_settle;

}

proof fn either_file_is_stable(seen: World, world: World, first: PathModel, second: PathModel)
    requires
        agrees(seen, world),
    ensures
        settle(
            seen,
            either_file_asked(seen, first, second),
            is_valid_file(seen, first) || is_valid_file(seen, second),
        ) == settle(
            seen,
            either_file_asked(world, first, second),
            is_valid_file(world, first) || is_valid_file(world, second),
        ),
{
    broadcast use group_settle;

    valid_file_is_stable(seen, world, first);
    valid_file_is_stable(seen, world, second);
}

proof fn framework_is_stable(seen: World, world: World, path: PathModel)
    requires
        agrees(seen, world),
    ensures
        settle(seen, framework_asked(seen, path), is_valid_framework(seen, path)) == settle(
            seen,
            framework_asked(world, path),
            is_valid_framework(world, path),
        ),
{
    broadcast use group_settle;

    valid_file_is_stable(seen, world, path);
}

proof fn library_is_stable(seen: World, world: World, os: Seq<char>, lib_dir: PathModel)
    requires
        agrees(seen, world),
    ensures
        settle(seen, library_asked(seen, os, lib_dir), has_library(seen, os, lib_dir)) == settle(
            seen,
            library_asked(world, os, lib_dir),
            has_library(world, os, lib_dir),
        ),
{
    broadcast use group_settle;

    let archive = child(lib_dir, "libktx.a"@);
    let dylib = child(lib_dir, "libktx.dylib"@);
    either_file_is_stable(seen, world, child(lib_dir, "ktx.lib"@), archive);
    either_file_is_stable(seen, world, archive, dylib);
    either_file_is_stable(seen, world, archive, child(lib_dir, "libktx.so"@));
    framework_is_stable(seen, world, child(lib_dir, "ktx.framework"@));
}

proof fn further_check_is_stable(
    seen: World,
    asked: Seq<QueryModel>,
    first: bool,
    more: Seq<QueryModel>,
    second: bool,
    asked_all: Seq<QueryModel>,
    first_all: bool,
    more_all: Seq<QueryModel>,
    second_all: bool,
)
    requires
        settle(seen, asked, first) == settle(seen, asked_all, first_all),
        settle(seen, more, second) == settle(seen, more_all, second_all),
    ensures
        settle(seen, asked + also(first, more), first && second) == settle(
            seen,
            asked_all + also(first_all, more_all),
            first_all && second_all,
        ),
{
    broadcast use group_settle;

}

proof fn directory_check_is_stable(
    seen: World,
    world: World,
    path: PathModel,
    more: Seq<QueryModel>,
    second: bool,
    more_all: Seq<QueryModel>,
    second_all: bool,
)
    requires
        agrees(seen, world),
        settle(seen, more, second) == settle(seen, more_all, second_all),
    ensures
        settle(
            seen,
            seq![QueryModel::IsDir(path)] + also(is_dir(seen, path), more),
            is_dir(seen, path) && second,
        ) == settle(
            seen,
            seq![QueryModel::IsDir(path)] + also(is_dir(world, path), more_all),
            is_dir(world, path) && second_all,
        ),
{
    broadcast use group_settle;

}

spec fn sources_asked(world: World, cache: CacheModel) -> Seq<QueryModel> {
    let header = child(child(cache.ktx_source_dir, INCLUDE_DIR_NAME@), KTX_HEADER_NAME@);
    seq![QueryModel::IsDir(cache.ktx_source_dir)] + also(
        is_dir(world, cache.ktx_source_dir),
        seq![QueryModel::IsFile(header)] + also(
            is_file(world, header),
            valid_file_asked(world, cache.bindings_file),
        ),
    )
}

spec fn has_sources(world: World, cache: CacheModel) -> bool {
    let header = child(child(cache.ktx_source_dir, INCLUDE_DIR_NAME@), KTX_HEADER_NAME@);
    &&& is_dir(world, cache.ktx_source_dir)
    &&& is_file(world, header)
    &&& is_valid_file(world, cache.bindings_file)
}

proof fn sources_are_stable(seen: World, world: World, cache: CacheModel)
    requires
        agrees(seen, world),
    ensures
        settle(seen, sources_asked(seen, cache), has_sources(seen, cache)) == settle(
            seen,
            sources_asked(world, cache),
            has_sources(world, cache),
        ),
{
    broadcast use group_settle;

    valid_file_is_stable(seen, world, cache.bindings_file);
}

/// A check of a cached build that knows some answers asks, and in the end says, what it would if
/// it knew them all.
pub proof fn a_check_depends_only_on_the_host(
    seen: World,
    world: World,
    os: Seq<char>,
    cache: CacheModel,
)
    requires
        agrees(seen, world),
    ensures
        settle(seen, cache_asked(seen, os, cache), is_valid_cache(seen, os, cache)) == settle(
            seen,
            cache_asked(world, os, cache),
            is_valid_cache(world, os, cache),
        ),
{
    let lib_dir = child(cache.ktx_build_dir, LIB_DIR_NAME@);
    let (library, library_all) = (has_library(seen, os, lib_dir), has_library(world, os, lib_dir));
    let (sources, sources_all) = (has_sources(seen, cache), has_sources(world, cache));
    library_is_stable(seen, world, os, lib_dir);
    sources_are_stable(seen, world, cache);
    further_check_is_stable(
        seen,
        library_asked(seen, os, lib_dir),
        library,
        sources_asked(seen, cache),
        sources,
        library_asked(world, os, lib_dir),
        library_all,
        sources_asked(world, cache),
        sources_all,
    );
    let rest = library_asked(seen, os, lib_dir) + also(library, sources_asked(seen, cache));
    let rest_all = library_asked(world, os, lib_dir) + also(
        library_all,
        sources_asked(world, cache),
    );
    directory_check_is_stable(
        seen,
        world,
        lib_dir,
        rest,
        library && sources,
        rest_all,
        library_all && sources_all,
    );
    directory_check_is_stable(
        seen,
        world,
        cache.ktx_build_dir,
        seq![QueryModel::IsDir(lib_dir)] + also(is_dir(seen, lib_dir), rest),
        is_dir(seen, lib_dir) && (library && sources),
        seq![QueryModel::IsDir(lib_dir)] + also(is_dir(world, lib_dir), rest_all),
        is_dir(world, lib_dir) && (library_all && sources_all),
    );
}

proof fn same_is_stable(seen: World, world: World, windows: bool, a: PathModel, b: PathModel)
    requires
        agrees(seen, world),
    ensures
        settle(seen, same_asked(seen, windows, a, b), is_same(seen, windows, a, b)) == settle(
            seen,
            same_asked(world, windows, a, b),
            is_same(world, windows, a, b),
        ),
{
    broadcast use group_settle;

}

proof fn reusable_is_stable(
    seen: World,
    world: World,
    env: EnvModel,
    package: PathModel,
    out_dir: PathModel,
)
    requires
        agrees(seen, world),
    ensures
        settle(
            seen,
            reusable_asked(seen, env, package, out_dir),
            is_reusable(seen, env, package, out_dir),
        ) == settle(
            seen,
            reusable_asked(world, env, package, out_dir),
            is_reusable(world, env, package, out_dir),
        ),
{
    broadcast use group_settle;

    if let Some(own) = parent(out_dir) {
        same_is_stable(seen, world, env.windows, package, own);
    }
    a_check_depends_only_on_the_host(seen, world, os_name(env), build_of_package(package));
}

proof fn directory_is_stable(
    seen: World,
    world: World,
    env: EnvModel,
    directory: PathModel,
    prefixed: bool,
    out_dir: PathModel,
)
    requires
        agrees(seen, world),
    ensures
        settle(
            seen,
            in_directory_asked(seen, env, directory, prefixed, out_dir),
            first_in_directory(seen, env, directory, prefixed, out_dir),
        ) == settle(
            seen,
            in_directory_asked(world, env, directory, prefixed, out_dir),
            first_in_directory(world, env, directory, prefixed, out_dir),
        ),
{
    broadcast use group_settle;

    let find = reusable_entry(seen, env, directory, prefixed, out_dir);
    let asked = reusable_entry_asked(seen, env, directory, prefixed, out_dir);
    let find_all = reusable_entry(world, env, directory, prefixed, out_dir);
    let asked_all = reusable_entry_asked(world, env, directory, prefixed, out_dir);
    assert forall|name: NameModel| #[trigger]
        settle(seen, asked(name), find(name)) == settle(seen, asked_all(name), find_all(name)) by {
        reusable_is_stable(seen, world, env, entry(directory, name), out_dir);
    }
    if let Some(names) = entries(seen, directory) {
        first_found_is_stable(seen, names, find, asked, find_all, asked_all);
    }
}

proof fn root_is_stable(
    seen: World,
    world: World,
    env: EnvModel,
    root: PathModel,
    out_dir: PathModel,
)
    requires
        agrees(seen, world),
    ensures
        settle(
            seen,
            root_asked(seen, env, root, out_dir),
            found_in_root(seen, env, root, out_dir),
        ) == settle(
            seen,
            root_asked(world, env, root, out_dir),
            found_in_root(world, env, root, out_dir),
        ),
{
    broadcast use group_settle;

    directory_is_stable(seen, world, env, child(root, PACKAGE_NAME@), false, out_dir);
    directory_is_stable(seen, world, env, root, true, out_dir);
}

proof fn filter_map_is_stable<A, B>(
    seen: World,
    items: Seq<A>,
    f: spec_fn(A) -> Option<B>,
    asked: spec_fn(A) -> Seq<QueryModel>,
    f_all: spec_fn(A) -> Option<B>,
    asked_all: spec_fn(A) -> Seq<QueryModel>,
    n: nat,
)
    requires
        n <= items.len(),
        forall|item: A| #[trigger]
            settle(seen, asked(item), f(item)) == settle(seen, asked_all(item), f_all(item)),
    ensures
        settle(seen, each_asked(items.take(n as int), asked), items.take(n as int).filter_map(f))
            == settle(
            seen,
            each_asked(items.take(n as int), asked_all),
            items.take(n as int).filter_map(f_all),
        ),
    decreases n,
{
    broadcast use group_settle;

    if n > 0 {
        let item = items[n - 1];
        filter_map_is_stable(seen, items, f, asked, f_all, asked_all, (n - 1) as nat);
        items.lemma_filter_map_take_succ(f, n - 1);
        items.lemma_filter_map_take_succ(f_all, n - 1);
        each_asked_ends(seen, items.take(n as int), asked);
        each_asked_ends(seen, items.take(n as int), asked_all);
        assert(items.take(n as int).drop_last() =~= items.take(n - 1));
        assert(settle(seen, asked(item), f(item)) == settle(seen, asked_all(item), f_all(item)));
    }
}

proof fn each_asked_ends<A>(seen: World, items: Seq<A>, asked: spec_fn(A) -> Seq<QueryModel>)
    requires
        items.len() > 0,
    ensures
        first_unseen(seen, each_asked(items, asked)) == first_unseen(
            seen,
            each_asked(items.drop_last(), asked) + asked(items.last()),
        ),
    decreases items.len(),
{
    broadcast use group_settle;

    if items.len() == 1 {
        assert(each_asked(items.drop_first(), asked) =~= Seq::empty());
        assert(each_asked(items.drop_last(), asked) =~= Seq::empty());
    } else {
        each_asked_ends(seen, items.drop_first(), asked);
        assert(items.drop_first().drop_last() =~= items.drop_last().drop_first());
        assert(items.drop_first().last() == items.last());
        assert(items.drop_last()[0] == items[0]);
    }
}

proof fn filter_is_stable<A>(
    seen: World,
    items: Seq<A>,
    keep: spec_fn(A) -> bool,
    asked: spec_fn(A) -> Seq<QueryModel>,
    keep_all: spec_fn(A) -> bool,
    asked_all: spec_fn(A) -> Seq<QueryModel>,
)
    requires
        forall|item: A| #[trigger]
            settle(seen, asked(item), keep(item)) == settle(seen, asked_all(item), keep_all(item)),
    ensures
        settle(seen, each_asked(items, asked), items.filter(keep)) == settle(
            seen,
            each_asked(items, asked_all),
            items.filter(keep_all),
        ),
    decreases items.len(),
{
    broadcast use group_settle;

    reveal(Seq::filter);
    if items.len() > 0 {
        let item = items.last();
        filter_is_stable(seen, items.drop_last(), keep, asked, keep_all, asked_all);
        each_asked_ends(seen, items, asked);
        each_asked_ends(seen, items, asked_all);
        assert(settle(seen, asked(item), keep(item)) == settle(
            seen,
            asked_all(item),
            keep_all(item),
        ));
    }
}

proof fn git_root_is_stable(seen: World, world: World, start: PathModel)
    requires
        agrees(seen, world),
    ensures
        settle(seen, git_root_asked(seen, start), git_root(seen, start)) == settle(
            seen,
            git_root_asked(world, start),
            git_root(world, start),
        ),
    decreases start.len(),
{
    broadcast use group_settle;

    if let Some(up) = parent(start) {
        git_root_is_stable(seen, world, up);
    }
}

proof fn listed_worktrees_are_stable(seen: World, world: World, root: PathModel)
    requires
        agrees(seen, world),
    ensures
        settle(seen, listed_worktrees_asked(seen, root), listed_worktrees(seen, root)) == settle(
            seen,
            listed_worktrees_asked(world, root),
            listed_worktrees(world, root),
        ),
{
    broadcast use group_settle;

    let (f, f_all) = (directory_named(seen), directory_named(world));
    let (asked, asked_all) = (directory_named_asked(seen), directory_named_asked(world));
    assert forall|text: Seq<char>| #[trigger]
        settle(seen, asked(text), f(text)) == settle(seen, asked_all(text), f_all(text)) by {}
    if let Some(output) = worktrees(seen, root) {
        let texts = listed_paths(text_of(output));
        filter_map_is_stable(seen, texts, f, asked, f_all, asked_all, texts.len());
        assert(texts.take(texts.len() as int) =~= texts);
    }
}

proof fn common_git_dir_is_stable(seen: World, world: World, root: PathModel)
    requires
        agrees(seen, world),
    ensures
        settle(seen, common_git_dir_asked(seen, root), common_git_dir(seen, root)) == settle(
            seen,
            common_git_dir_asked(world, root),
            common_git_dir(world, root),
        ),
{
    broadcast use group_settle;

}

proof fn linked_worktrees_are_stable(seen: World, world: World, directory: PathModel)
    requires
        agrees(seen, world),
    ensures
        settle(
            seen,
            linked_worktrees_asked(seen, directory),
            linked_worktrees(seen, directory),
        ) == settle(
            seen,
            linked_worktrees_asked(world, directory),
            linked_worktrees(world, directory),
        ),
{
    broadcast use group_settle;

    let (f, f_all) = (linked_worktree(seen, directory), linked_worktree(world, directory));
    let asked = linked_worktree_asked(seen, directory);
    let asked_all = linked_worktree_asked(world, directory);
    assert forall|name: NameModel| #[trigger]
        settle(seen, asked(name), f(name)) == settle(seen, asked_all(name), f_all(name)) by {}
    if let Some(names) = entries(seen, directory) {
        filter_map_is_stable(seen, names, f, asked, f_all, asked_all, names.len());
        assert(names.take(names.len() as int) =~= names);
    }
}

proof fn recorded_worktrees_are_stable(seen: World, world: World, root: PathModel)
    requires
        agrees(seen, world),
    ensures
        settle(
            seen,
            recorded_worktrees_asked(seen, root),
            recorded_worktrees(seen, root),
        ) == settle(
            seen,
            recorded_worktrees_asked(world, root),
            recorded_worktrees(world, root),
        ),
{
    broadcast use group_settle;

    common_git_dir_is_stable(seen, world, root);
    if let Some(git_dir) = common_git_dir(seen, root) {
        linked_worktrees_are_stable(seen, world, child(git_dir, WORKTREES_DIR@));
    }
}

proof fn sibling_worktrees_are_stable(seen: World, world: World, windows: bool, root: PathModel)
    requires
        agrees(seen, world),
    ensures
        settle(
            seen,
            sibling_worktrees_asked(seen, windows, root),
            sibling_worktrees(seen, windows, root),
        ) == settle(
            seen,
            sibling_worktrees_asked(world, windows, root),
            sibling_worktrees(world, windows, root),
        ),
{
    broadcast use group_settle;

    listed_worktrees_are_stable(seen, world, root);
    recorded_worktrees_are_stable(seen, world, root);
    let (keep, keep_all) = (is_elsewhere(seen, windows, root), is_elsewhere(world, windows, root));
    let asked = elsewhere_asked(seen, windows, root);
    let asked_all = elsewhere_asked(world, windows, root);
    assert forall|path: PathModel| #[trigger]
        settle(seen, asked(path), keep(path)) == settle(seen, asked_all(path), keep_all(path)) by {
        same_is_stable(seen, world, windows, path, root);
    }
    filter_is_stable(seen, all_worktrees(seen, root), keep, asked, keep_all, asked_all);
}

proof fn target_directories_are_stable(seen: World, world: World, worktree: PathModel)
    requires
        agrees(seen, world),
    ensures
        settle(
            seen,
            target_directories_asked(seen, worktree),
            target_directories(seen, worktree),
        ) == settle(
            seen,
            target_directories_asked(world, worktree),
            target_directories(world, worktree),
        ),
{
    broadcast use group_settle;

    let (f, f_all) = (custom_target(seen, worktree), custom_target(world, worktree));
    let asked = custom_target_asked(worktree);
    assert forall|name: NameModel| #[trigger]
        settle(seen, asked(name), f(name)) == settle(seen, asked(name), f_all(name)) by {}
    if let Some(names) = entries(seen, worktree) {
        filter_map_is_stable(seen, names, f, asked, f_all, asked, names.len());
        assert(names.take(names.len() as int) =~= names);
    }
}

proof fn target_is_stable(
    seen: World,
    world: World,
    env: EnvModel,
    context: ContextModel,
    out_dir: PathModel,
    target_dir: PathModel,
)
    requires
        agrees(seen, world),
    ensures
        settle(
            seen,
            target_asked(seen, env, context, out_dir)(target_dir),
            found_in_target(seen, env, context, out_dir)(target_dir),
        ) == settle(
            seen,
            target_asked(world, env, context, out_dir)(target_dir),
            found_in_target(world, env, context, out_dir)(target_dir),
        ),
{
    broadcast use group_settle;

    let dir = context.triple_dir(target_dir);
    root_is_stable(seen, world, env, build_root_in(dir, context.profile()), out_dir);
    root_is_stable(seen, world, env, build_root_in(dir, context.other_profile()), out_dir);
    if let Some(host) = env.target {
        let explicit = host_dir(seen, target_dir, host);
        root_is_stable(seen, world, env, build_root_in(explicit, context.profile()), out_dir);
    }
}

proof fn worktree_is_stable(
    seen: World,
    world: World,
    env: EnvModel,
    context: ContextModel,
    out_dir: PathModel,
    worktree: PathModel,
)
    requires
        agrees(seen, world),
    ensures
        settle(
            seen,
            worktree_asked(seen, env, context, out_dir)(worktree),
            found_in_worktree(seen, env, context, out_dir)(worktree),
        ) == settle(
            seen,
            worktree_asked(world, env, context, out_dir)(worktree),
            found_in_worktree(world, env, context, out_dir)(worktree),
        ),
{
    broadcast use group_settle;

    target_directories_are_stable(seen, world, worktree);
    let find = found_in_target(seen, env, context, out_dir);
    let asked = target_asked(seen, env, context, out_dir);
    let find_all = found_in_target(world, env, context, out_dir);
    let asked_all = target_asked(world, env, context, out_dir);
    assert forall|dir: PathModel| #[trigger]
        settle(seen, asked(dir), find(dir)) == settle(seen, asked_all(dir), find_all(dir)) by {
        target_is_stable(seen, world, env, context, out_dir, dir);
    }
    first_found_is_stable(
        seen,
        target_directories(seen, worktree),
        find,
        asked,
        find_all,
        asked_all,
    );
}

proof fn worktrees_are_stable(
    seen: World,
    world: World,
    env: EnvModel,
    context: ContextModel,
    out_dir: PathModel,
)
    requires
        agrees(seen, world),
    ensures
        settle(
            seen,
            worktrees_asked(seen, env, context, out_dir),
            found_in_worktrees(seen, env, context, out_dir),
        ) == settle(
            seen,
            worktrees_asked(world, env, context, out_dir),
            found_in_worktrees(world, env, context, out_dir),
        ),
{
    broadcast use group_settle;

    git_root_is_stable(seen, world, context.current_target_root);
    let find = found_in_worktree(seen, env, context, out_dir);
    let asked = worktree_asked(seen, env, context, out_dir);
    let find_all = found_in_worktree(world, env, context, out_dir);
    let asked_all = worktree_asked(world, env, context, out_dir);
    assert forall|dir: PathModel| #[trigger]
        settle(seen, asked(dir), find(dir)) == settle(seen, asked_all(dir), find_all(dir)) by {
        worktree_is_stable(seen, world, env, context, out_dir, dir);
    }
    if let Some(root) = git_root(seen, context.current_target_root) {
        sibling_worktrees_are_stable(seen, world, env.windows, root);
        first_found_is_stable(
            seen,
            sibling_worktrees(seen, env.windows, root),
            find,
            asked,
            find_all,
            asked_all,
        );
    }
}

/// A search that knows some answers asks, and in the end finds, what it would if it knew them
/// all: what comes of it depends on nothing but the host.
pub proof fn a_search_depends_only_on_the_host(
    seen: World,
    world: World,
    env: EnvModel,
    out_dir: PathModel,
)
    requires
        agrees(seen, world),
    ensures
        settle(seen, build_asked(seen, env, out_dir), found_build(seen, env, out_dir)) == settle(
            seen,
            build_asked(world, env, out_dir),
            found_build(world, env, out_dir),
        ),
{
    broadcast use group_settle;

    if let Some(context) = context_of(out_dir, env.target) {
        let root = context.cargo_root();
        root_is_stable(seen, world, env, root, out_dir);
        if let Some(sibling) = other_root(root, context.is_release()) {
            root_is_stable(seen, world, env, sibling, out_dir);
        }
        worktrees_are_stable(seen, world, env, context, out_dir);
    }
}

/// How many of the queries `seen` does not answer.
pub open spec fn unseen_count(seen: World, asked: Seq<QueryModel>) -> nat
    decreases asked.len(),
{
    if asked.len() == 0 {
        0
    } else {
        unseen_count(seen, asked.drop_first()) + if seen.contains_key(asked[0]) {
            0nat
        } else {
            1nat
        }
    }
}

proof fn unseen_count_falls(
    seen: World,
    asked: Seq<QueryModel>,
    query: QueryModel,
    answer: AnswerModel,
)
    ensures
        unseen_count(seen, asked) <= asked.len(),
        unseen_count(seen.insert(query, answer), asked) <= unseen_count(seen, asked),
        first_unseen(seen, asked) == Some(query) ==> unseen_count(seen.insert(query, answer), asked)
            < unseen_count(seen, asked),
        first_unseen(seen, asked) is Some ==> unseen_count(seen, asked) > 0,
    decreases asked.len(),
{
    if asked.len() > 0 {
        unseen_count_falls(seen, asked.drop_first(), query, answer);
    }
}

/// What was seen once a search has gone on from `seen` for `n` queries, or to its end.
pub open spec fn searched(
    seen: World,
    world: World,
    env: EnvModel,
    out_dir: PathModel,
    n: nat,
) -> World
    decreases n,
{
    match settle(seen, build_asked(seen, env, out_dir), found_build(seen, env, out_dir)) {
        ProgressModel::Need(query) if n > 0 => searched(
            seen.insert(query, world[query]),
            world,
            env,
            out_dir,
            (n - 1) as nat,
        ),
        _ => seen,
    }
}

/// A search whose queries are all answered comes to an end, after no more queries than are asked
/// of the whole host, and ends with what there is to find on it.
pub proof fn a_search_ends_with_what_there_is(
    seen: World,
    world: World,
    env: EnvModel,
    out_dir: PathModel,
    n: nat,
)
    requires
        agrees(seen, world),
        forall|i: int|
            0 <= i < build_asked(world, env, out_dir).len() ==> world.contains_key(
                #[trigger] build_asked(world, env, out_dir)[i],
            ),
        n >= unseen_count(seen, build_asked(world, env, out_dir)),
    ensures
        unseen_count(seen, build_asked(world, env, out_dir)) <= build_asked(
            world,
            env,
            out_dir,
        ).len(),
        ({
            let end = searched(seen, world, env, out_dir, n);
            settle(end, build_asked(end, env, out_dir), found_build(end, env, out_dir))
                == ProgressModel::Done(found_build(world, env, out_dir))
        }),
    decreases n,
{
    let asked = build_asked(world, env, out_dir);
    let found = found_build(world, env, out_dir);
    a_search_depends_only_on_the_host(seen, world, env, out_dir);
    settle_waits_only_for_what_is_open(seen, asked, found);
    match settle(seen, asked, found) {
        ProgressModel::Need(query) => {
            unseen_count_falls(seen, asked, query, world[query]);
            let i = choose|i: int| 0 <= i < asked.len() && asked[i] == query;
            assert(world.contains_key(asked[i]));
            let more = seen.insert(query, world[query]);
            assert(agrees(more, world));
            a_search_ends_with_what_there_is(more, world, env, out_dir, (n - 1) as nat);
        },
        ProgressModel::Done(_) => {
            unseen_count_falls(seen, asked, QueryModel::IsDir(out_dir), AnswerModel::Flag(true));
        },
    }
}

} // verus!
