//! A search that leaves the other worktrees alone depends on the own target directory only.
use vstd::prelude::*;

use crate::cache::{build_of_package, cache_asked, either_file_asked, framework_asked};
use crate::cache::{library_asked, valid_file_asked, CacheModel};
use crate::cache::{INCLUDE_DIR_NAME, KTX_HEADER_NAME, LIB_DIR_NAME, OUTPUT_DIR_NAME};
use crate::context::{a_context_fits_together, a_special_build_is_served_by_plain_ones};
use crate::context::{context_of, ContextModel};
use crate::environment::{is_set, os_name, EnvModel};
use crate::observe::settle_waits_only_for_what_is_open;
use crate::observe::{agrees, canonical, entries, first_found_asked, settle};
use crate::observe::{ProgressModel, QueryModel, World};
use crate::path::{child, entry, is_within, parent};
use crate::path::{NameModel, PathModel};
use crate::reuse::{build_asked, found_build, found_locally, home_of, locally_asked, other_root};
use crate::search::{in_directory_asked, reusable_asked, root_asked};
use crate::search::{reusable_entry, reusable_entry_asked, same_asked, PACKAGE_NAME};
use crate::stable::a_search_depends_only_on_the_host;

verus! {

/// Whether a query asks about a place in the directory or, where it asks for a path as text, about
/// what the host resolves such a place to.
pub open spec fn is_local(world: World, home: PathModel, query: QueryModel) -> bool {
    match query {
        QueryModel::IsDir(path) => is_within(path, home),
        QueryModel::IsFile(path) => is_within(path, home),
        QueryModel::Exists(path) => is_within(path, home),
        QueryModel::Size(path) => is_within(path, home),
        QueryModel::CanOpen(path) => is_within(path, home),
        QueryModel::Entries(path) => is_within(path, home),
        QueryModel::Content(path) => is_within(path, home),
        QueryModel::Canonical(path) => is_within(path, home),
        QueryModel::Display(path) => is_within(path, home) || exists|link: PathModel|
            is_within(link, home) && #[trigger] canonical(world, link) == Some(path),
        QueryModel::Resolve(_, _) => false,
        QueryModel::Worktrees(_) => false,
    }
}

/// Whether all of the queries are local.
#[verifier::opaque]
pub open spec fn stays_local(world: World, home: PathModel, asked: Seq<QueryModel>) -> bool {
    forall|i: int| 0 <= i < asked.len() ==> is_local(world, home, #[trigger] asked[i])
}

broadcast proof fn two_steps_stay_local(
    world: World,
    home: PathModel,
    a: Seq<QueryModel>,
    b: Seq<QueryModel>,
)
    requires
        stays_local(world, home, a),
        stays_local(world, home, b),
    ensures
        #[trigger] stays_local(world, home, a + b),
{
    reveal(stays_local);
}

broadcast proof fn a_query_stays_local(world: World, home: PathModel, query: QueryModel)
    requires
        is_local(world, home, query),
    ensures
        #[trigger] stays_local(world, home, Seq::empty().push(query)),
{
    reveal(stays_local);
}

broadcast proof fn nothing_stays_local(world: World, home: PathModel)
    ensures
        #[trigger] stays_local(world, home, Seq::empty()),
{
    reveal(stays_local);
}

broadcast proof fn an_entry_is_within(path: PathModel, name: NameModel, home: PathModel)
    requires
        is_within(path, home),
    ensures
        #[trigger] is_within(entry(path, name), home),
{
    assert(home =~= entry(path, name).subrange(0, home.len() as int));
}

broadcast group group_local {
    two_steps_stay_local,
    a_query_stays_local,
    nothing_stays_local,
    an_entry_is_within,
}

proof fn files_stay_local(world: World, home: PathModel, first: PathModel, second: PathModel)
    requires
        is_within(first, home),
        is_within(second, home),
    ensures
        stays_local(world, home, valid_file_asked(world, first)),
        stays_local(world, home, either_file_asked(world, first, second)),
        stays_local(world, home, framework_asked(world, first)),
{
    broadcast use group_local;

    assert(stays_local(world, home, valid_file_asked(world, first)));
    assert(stays_local(world, home, valid_file_asked(world, second)));
}

proof fn libraries_stay_local(world: World, home: PathModel, os: Seq<char>, lib_dir: PathModel)
    requires
        is_within(lib_dir, home),
    ensures
        stays_local(world, home, library_asked(world, os, lib_dir)),
{
    broadcast use group_local;

    let archive = child(lib_dir, "libktx.a"@);
    let framework = child(lib_dir, "ktx.framework"@);
    files_stay_local(world, home, child(lib_dir, "ktx.lib"@), archive);
    files_stay_local(world, home, archive, child(lib_dir, "libktx.dylib"@));
    files_stay_local(world, home, archive, child(lib_dir, "libktx.so"@));
    files_stay_local(world, home, framework, framework);
}

proof fn a_check_stays_local(world: World, home: PathModel, os: Seq<char>, cache: CacheModel)
    requires
        is_within(cache.ktx_build_dir, home),
        is_within(cache.ktx_source_dir, home),
        is_within(cache.bindings_file, home),
    ensures
        stays_local(world, home, cache_asked(world, os, cache)),
{
    broadcast use group_local;

    let lib_dir = child(cache.ktx_build_dir, LIB_DIR_NAME@);
    let header = child(child(cache.ktx_source_dir, INCLUDE_DIR_NAME@), KTX_HEADER_NAME@);
    assert(is_within(header, home));
    libraries_stay_local(world, home, os, lib_dir);
    files_stay_local(world, home, cache.bindings_file, cache.bindings_file);
}

proof fn a_comparison_stays_local(
    world: World,
    home: PathModel,
    windows: bool,
    a: PathModel,
    b: PathModel,
)
    requires
        is_within(a, home),
        is_within(b, home),
    ensures
        stays_local(world, home, same_asked(world, windows, a, b)),
{
    broadcast use group_local;

    if let Some(x) = canonical(world, a) {
        assert(is_local(world, home, QueryModel::Display(x)));
    }
    if let Some(y) = canonical(world, b) {
        assert(is_local(world, home, QueryModel::Display(y)));
    }
}

proof fn a_package_stays_local(
    world: World,
    home: PathModel,
    env: EnvModel,
    package: PathModel,
    out_dir: PathModel,
)
    requires
        is_within(package, home),
        parent(out_dir) matches Some(own) && is_within(own, home),
    ensures
        stays_local(world, home, reusable_asked(world, env, package, out_dir)),
{
    broadcast use group_local;

    assert(is_within(child(package, OUTPUT_DIR_NAME@), home));
    a_check_stays_local(world, home, os_name(env), build_of_package(package));
    a_comparison_stays_local(world, home, env.windows, package, parent(out_dir)->0);
}

proof fn a_list_stays_local<A, B>(
    world: World,
    home: PathModel,
    items: Seq<A>,
    find: spec_fn(A) -> Option<B>,
    asked: spec_fn(A) -> Seq<QueryModel>,
)
    requires
        forall|item: A| stays_local(world, home, #[trigger] asked(item)),
    ensures
        stays_local(world, home, first_found_asked(items, find, asked)),
    decreases items.len(),
{
    broadcast use group_local;

    if items.len() > 0 {
        a_list_stays_local(world, home, items.drop_first(), find, asked);
    }
}

proof fn a_directory_stays_local(
    world: World,
    home: PathModel,
    env: EnvModel,
    directory: PathModel,
    prefixed: bool,
    out_dir: PathModel,
)
    requires
        is_within(directory, home),
        parent(out_dir) matches Some(own) && is_within(own, home),
    ensures
        stays_local(world, home, in_directory_asked(world, env, directory, prefixed, out_dir)),
{
    broadcast use group_local;

    let find = reusable_entry(world, env, directory, prefixed, out_dir);
    let asked = reusable_entry_asked(world, env, directory, prefixed, out_dir);
    assert forall|name: NameModel| stays_local(world, home, #[trigger] asked(name)) by {
        a_package_stays_local(world, home, env, entry(directory, name), out_dir);
    }
    if let Some(names) = entries(world, directory) {
        a_list_stays_local(world, home, names, find, asked);
    }
}

proof fn a_root_stays_local(
    world: World,
    home: PathModel,
    env: EnvModel,
    root: PathModel,
    out_dir: PathModel,
)
    requires
        is_within(root, home),
        parent(out_dir) matches Some(own) && is_within(own, home),
    ensures
        stays_local(world, home, root_asked(world, env, root, out_dir)),
{
    broadcast use group_local;

    let package_dir = child(root, PACKAGE_NAME@);
    a_directory_stays_local(world, home, env, package_dir, false, out_dir);
    a_directory_stays_local(world, home, env, root, true, out_dir);
}

proof fn within_is_transitive(a: PathModel, b: PathModel, c: PathModel)
    requires
        is_within(a, b),
        is_within(b, c),
    ensures
        is_within(a, c),
{
    assert(c =~= a.subrange(0, c.len() as int));
}

/// The target directory of a context contains the package that is built and the build roots of
/// both profiles.
proof fn a_context_is_within_its_home(out_dir: PathModel, target: Option<Seq<char>>)
    requires
        context_of(out_dir, target) is Some,
    ensures
        ({
            let context = context_of(out_dir, target)->0;
            let home = home_of(context);
            &&& parent(out_dir) matches Some(own) && is_within(own, home)
            &&& is_within(context.cargo_root(), home)
            &&& other_root(context.cargo_root(), context.is_release()) matches Some(sibling)
                ==> is_within(sibling, home)
        }),
{
    broadcast use an_entry_is_within;

    let context = context_of(out_dir, target)->0;
    let home = home_of(context);
    let root = context.current_build_root;
    let own_root = context.current_target_root;
    let dir = context.triple_dir(own_root);
    a_context_fits_together(out_dir, target);
    a_special_build_is_served_by_plain_ones(context);
    assert(home =~= home.subrange(0, home.len() as int));
    assert(own_root =~= own_root.subrange(0, own_root.len() as int));
    assert(is_within(own_root, home));
    assert(is_within(dir, own_root));
    assert(dir =~= root.subrange(0, dir.len() as int));
    within_is_transitive(root, dir, own_root);
    within_is_transitive(root, own_root, home);
    within_is_transitive(parent(out_dir)->0, root, home);
    within_is_transitive(dir, own_root, home);
    assert(is_within(context.triple_dir(home), home));
    assert(is_within(context.cargo_root(), home));
    if let Some(sibling) = other_root(context.cargo_root(), context.is_release()) {
        let directory = parent(parent(context.cargo_root())->0)->0;
        if context.is_nested() {
            assert(directory =~= context.triple_dir(home));
        }
        assert(is_within(directory, home));
    }
}

/// Whether both hosts answer every local query, and alike.
pub open spec fn answer_alike(a: World, b: World, home: PathModel) -> bool {
    forall|query: QueryModel| #[trigger]
        is_local(a, home, query) ==> a.contains_key(query) && b.contains_key(query) && a[query]
            == b[query]
}

/// Where the other worktrees are to be left alone, every query is about the own target directory,
/// so that Git is never asked, and what is found is what that directory offers.
pub proof fn the_search_can_be_kept_local(
    world: World,
    env: EnvModel,
    out_dir: PathModel,
    context: ContextModel,
)
    requires
        is_set(env.no_worktree_cache),
        context_of(out_dir, env.target) == Some(context),
    ensures
        forall|i: int|
            0 <= i < build_asked(world, env, out_dir).len() ==> is_local(
                world,
                home_of(context),
                #[trigger] build_asked(world, env, out_dir)[i],
            ),
        found_build(world, env, out_dir) == found_locally(world, env, context, out_dir),
{
    what_is_near_is_asked_first(world, env, out_dir, context);
}

/// Git is asked for other worktrees only where they may be searched and the own target directory
/// has nothing to offer: until then every query is about that directory.
pub proof fn what_is_near_is_asked_first(
    world: World,
    env: EnvModel,
    out_dir: PathModel,
    context: ContextModel,
)
    requires
        context_of(out_dir, env.target) == Some(context),
    ensures
        is_set(env.no_worktree_cache) || found_locally(world, env, context, out_dir) is Some
            ==> forall|i: int|
            0 <= i < build_asked(world, env, out_dir).len() ==> is_local(
                world,
                home_of(context),
                #[trigger] build_asked(world, env, out_dir)[i],
            ),
{
    broadcast use group_local;

    let home = home_of(context);
    let root = context.cargo_root();
    a_context_is_within_its_home(out_dir, env.target);
    a_root_stays_local(world, home, env, root, out_dir);
    if let Some(sibling) = other_root(root, context.is_release()) {
        a_root_stays_local(world, home, env, sibling, out_dir);
    }
    assert(stays_local(world, home, locally_asked(world, env, context, out_dir)));
    if is_set(env.no_worktree_cache) || found_locally(world, env, context, out_dir) is Some {
        assert(stays_local(world, home, build_asked(world, env, out_dir)));
    }
    reveal(stays_local);
}

/// Where the other worktrees are to be left alone, two hosts that answer alike about the own target
/// directory give the same result, however they differ elsewhere, such as in those worktrees.
pub proof fn other_worktrees_make_no_difference(
    a: World,
    b: World,
    env: EnvModel,
    out_dir: PathModel,
    context: ContextModel,
)
    requires
        is_set(env.no_worktree_cache),
        context_of(out_dir, env.target) == Some(context),
        answer_alike(a, b, home_of(context)),
    ensures
        found_build(a, env, out_dir) == found_build(b, env, out_dir),
{
    let home = home_of(context);
    let seen = World::new(|query: QueryModel| is_local(a, home, query), |query: QueryModel| a[query]);
    assert(agrees(seen, a) && agrees(seen, b));
    a_search_depends_only_on_the_host(seen, a, env, out_dir);
    a_search_depends_only_on_the_host(seen, b, env, out_dir);
    the_search_can_be_kept_local(a, env, out_dir, context);
    let asked = build_asked(a, env, out_dir);
    settle_waits_only_for_what_is_open(seen, asked, found_build(a, env, out_dir));
    if let ProgressModel::Need(query) = settle(seen, asked, found_build(a, env, out_dir)) {
        let i = choose|i: int| 0 <= i < asked.len() && asked[i] == query;
        assert(is_local(a, home, asked[i]));
    }
}

} // verus!
