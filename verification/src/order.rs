//! Where a search looks, place by place, and in which order.
use vstd::prelude::*;

use crate::context::{a_triple_has_a_directory_of_its_name, context_of, ContextModel};
use crate::context::{sibling_of, the_kind_of_a_build_is_told_by_names};
use crate::environment::{is_set, EnvModel};
use crate::git::{git_root, sibling_worktrees};
use crate::meaning::{a_root_gives_the_first_that_it_offers, at, offers_nothing};
use crate::observe::{first_found, first_found_comes_from_an_item, World};
use crate::path::{parent, PathModel};
use crate::reuse::{found_build, found_in_context, found_locally};
use crate::cache::CacheModel;
use crate::search::found_in_root;
use crate::text::is_plain_name;
use crate::worktree::{found_in_target, found_in_worktree, found_in_worktrees, target_directories};

verus! {

/// What the items yield, one after the other.
pub open spec fn joined<A, B>(items: Seq<A>, yields: spec_fn(A) -> Seq<B>) -> Seq<B>
    decreases items.len(),
{
    if items.len() == 0 {
        Seq::empty()
    } else {
        yields(items[0]) + joined(items.drop_first(), yields)
    }
}

/// The items that are kept, each as what it is kept as, in their order.
pub open spec fn kept<A, B>(items: Seq<A>, keep: spec_fn(A) -> Option<B>) -> Seq<B>
    decreases items.len(),
{
    if items.len() == 0 {
        Seq::empty()
    } else {
        (match keep(items[0]) {
            Some(item) => seq![item],
            None => Seq::empty(),
        }) + kept(items.drop_first(), keep)
    }
}

/// To filter and map from the end is to keep from the start.
pub proof fn filter_map_keeps_in_order<A, B>(items: Seq<A>, keep: spec_fn(A) -> Option<B>)
    ensures
        items.filter_map(keep) == kept(items, keep),
    decreases items.len(),
{
    if items.len() > 0 {
        let rest = items.drop_first();
        filter_map_keeps_in_order(rest, keep);
        if items.len() == 1 {
            assert(items.drop_last() =~= Seq::empty());
            assert(rest =~= Seq::empty());
            assert(items.filter_map(keep) =~= kept(items, keep));
        } else {
            filter_map_keeps_in_order(items.drop_last(), keep);
            filter_map_keeps_in_order(rest.drop_last(), keep);
            assert(items.drop_last().drop_first() =~= rest.drop_last());
            assert(items.drop_last()[0] == items[0]);
            assert(rest.last() == items.last());
            assert(items.filter_map(keep) =~= kept(items, keep));
        }
    }
}

/// To filter is to keep what passes, as it is.
pub proof fn filter_keeps_in_order<A>(items: Seq<A>, keep: spec_fn(A) -> bool)
    ensures
        items.filter(keep) == kept(
            items,
            |item: A|
                if keep(item) {
                    Some(item)
                } else {
                    None
                },
        ),
    decreases items.len(),
{
    let f = |item: A|
        if keep(item) {
            Some(item)
        } else {
            None
        };
    filter_map_keeps_in_order(items, f);
    reveal(Seq::filter);
    if items.len() > 0 {
        filter_keeps_in_order(items.drop_last(), keep);
        filter_map_keeps_in_order(items.drop_last(), f);
        assert(items.filter(keep) =~= items.filter_map(f));
    }
}

proof fn first_found_in_two<A, B>(a: Seq<A>, b: Seq<A>, find: spec_fn(A) -> Option<B>)
    ensures
        first_found(a + b, find) == match first_found(a, find) {
            Some(found) => Some(found),
            None => first_found(b, find),
        },
    decreases a.len(),
{
    if a.len() == 0 {
        assert(a + b =~= b);
    } else {
        assert((a + b).drop_first() =~= a.drop_first() + b);
        first_found_in_two(a.drop_first(), b, find);
    }
}

proof fn first_found_in_each<A, B, C>(
    items: Seq<A>,
    find_item: spec_fn(A) -> Option<C>,
    yields: spec_fn(A) -> Seq<B>,
    find: spec_fn(B) -> Option<C>,
)
    requires
        forall|item: A| #[trigger] find_item(item) == first_found(yields(item), find),
    ensures
        first_found(items, find_item) == first_found(joined(items, yields), find),
    decreases items.len(),
{
    if items.len() > 0 {
        first_found_in_each(items.drop_first(), find_item, yields, find);
        first_found_in_two(yields(items[0]), joined(items.drop_first(), yields), find);
        assert(find_item(items[0]) == first_found(yields(items[0]), find));
    }
}

/// The build roots that are searched in a target directory of another worktree: for the triple of
/// the context those of the profile that is built and of the other one; for the host also that of
/// the profile in the directory that the host is named by, which for a plain name is an entry.
pub open spec fn roots_in_target(
    world: World,
    env: EnvModel,
    context: ContextModel,
    target_dir: PathModel,
) -> Seq<PathModel> {
    let dir = match context.target_triple {
        Some(triple) => at(target_dir, triple),
        None => target_dir,
    };
    let (own, other) = if context.is_release() {
        ("release"@, "debug"@)
    } else {
        ("debug"@, "release"@)
    };
    seq![at(at(dir, own), "build"@), at(at(dir, other), "build"@)] + match env.target {
        Some(host) if context.target_triple is None => seq![
            at(
                at(
                    if is_plain_name(host) {
                        at(target_dir, host)
                    } else {
                        crate::observe::resolve(world, target_dir, host)
                    },
                    own,
                ),
                "build"@,
            ),
        ],
        _ => Seq::empty(),
    }
}

/// The build roots that are searched in the other worktrees: worktree by worktree, in each target
/// directory by target directory.
pub open spec fn roots_elsewhere(world: World, env: EnvModel, context: ContextModel) -> Seq<
    PathModel,
> {
    match git_root(world, context.current_target_root) {
        Some(root) => joined(
            sibling_worktrees(world, env.windows, root),
            |worktree: PathModel|
                joined(
                    target_directories(world, worktree),
                    |target_dir: PathModel| roots_in_target(world, env, context, target_dir),
                ),
        ),
        None => Seq::empty(),
    }
}

/// The build roots that are searched in the own target directory: the first one, then the one of the
/// other profile beside it, if that is another.
pub open spec fn roots_at_home(context: ContextModel) -> Seq<PathModel> {
    let first = context.cargo_root();
    seq![first] + match sibling_of(first, context.is_release()) {
        Some(sibling) if sibling != first => seq![sibling],
        _ => Seq::empty(),
    }
}

/// All the build roots that are searched, in order.
pub open spec fn roots_to_search(world: World, env: EnvModel, context: ContextModel) -> Seq<
    PathModel,
> {
    if is_set(env.no_worktree_cache) {
        roots_at_home(context)
    } else {
        roots_at_home(context) + roots_elsewhere(world, env, context)
    }
}

spec fn found_at(world: World, env: EnvModel, out_dir: PathModel) -> spec_fn(PathModel) -> Option<
    CacheModel,
> {
    |root: PathModel| found_in_root(world, env, root, out_dir)
}

proof fn a_target_is_searched_root_by_root(
    world: World,
    env: EnvModel,
    context: ContextModel,
    out_dir: PathModel,
    target_dir: PathModel,
)
    ensures
        found_in_target(world, env, context, out_dir)(target_dir) == first_found(
            roots_in_target(world, env, context, target_dir),
            found_at(world, env, out_dir),
        ),
{
    let find = found_at(world, env, out_dir);
    let roots = roots_in_target(world, env, context, target_dir);
    a_triple_has_a_directory_of_its_name(context, target_dir);
    the_kind_of_a_build_is_told_by_names(context, target_dir);
    let rest = roots.drop_first();
    let last = rest.drop_first();
    assert(first_found(roots, find) == match find(roots[0]) {
        Some(found) => Some(found),
        None => first_found(rest, find),
    });
    assert(first_found(rest, find) == match find(rest[0]) {
        Some(found) => Some(found),
        None => first_found(last, find),
    });
    if last.len() > 0 {
        assert(last.drop_first() =~= Seq::empty());
        assert(first_found(last, find) == match find(last[0]) {
            Some(found) => Some(found),
            None => first_found(last.drop_first(), find),
        });
    }
}

proof fn worktrees_are_searched_root_by_root(
    world: World,
    env: EnvModel,
    context: ContextModel,
    out_dir: PathModel,
)
    ensures
        found_in_worktrees(world, env, context, out_dir) == first_found(
            roots_elsewhere(world, env, context),
            found_at(world, env, out_dir),
        ),
{
    let find = found_at(world, env, out_dir);
    let in_target = |target_dir: PathModel| roots_in_target(world, env, context, target_dir);
    let in_worktree = |worktree: PathModel|
        joined(target_directories(world, worktree), in_target);
    let find_target = found_in_target(world, env, context, out_dir);
    let find_worktree = found_in_worktree(world, env, context, out_dir);
    assert forall|target_dir: PathModel| #[trigger]
        find_target(target_dir) == first_found(in_target(target_dir), find) by {
        a_target_is_searched_root_by_root(world, env, context, out_dir, target_dir);
    }
    assert forall|worktree: PathModel| #[trigger]
        find_worktree(worktree) == first_found(in_worktree(worktree), find) by {
        first_found_in_each(target_directories(world, worktree), find_target, in_target, find);
    }
    if let Some(root) = git_root(world, context.current_target_root) {
        let list = sibling_worktrees(world, env.windows, root);
        first_found_in_each(list, find_worktree, in_worktree, find);
        assert(roots_elsewhere(world, env, context) == joined(
            list,
            |worktree: PathModel|
                joined(
                    target_directories(world, worktree),
                    |target_dir: PathModel| roots_in_target(world, env, context, target_dir),
                ),
        ));
    }
}

proof fn a_context_is_searched_root_by_root(
    world: World,
    env: EnvModel,
    context: ContextModel,
    out_dir: PathModel,
)
    ensures
        found_in_context(world, env, context, out_dir) == first_found(
            roots_to_search(world, env, context),
            found_at(world, env, out_dir),
        ),
{
    let find = found_at(world, env, out_dir);
    let home = roots_at_home(context);
    let rest = home.drop_first();
    worktrees_are_searched_root_by_root(world, env, context, out_dir);
    assert(first_found(home, find) == match find(home[0]) {
        Some(found) => Some(found),
        None => first_found(rest, find),
    });
    if rest.len() > 0 {
        assert(rest.drop_first() =~= Seq::empty());
        assert(first_found(rest, find) == match find(rest[0]) {
            Some(found) => Some(found),
            None => first_found(rest.drop_first(), find),
        });
    }
    assert(first_found(home, find) == found_locally(world, env, context, out_dir));
    first_found_in_two(home, roots_elsewhere(world, env, context), find);
}

/// A search gives what the first of all build roots to search gives that offers anything. Where it
/// gives nothing, none of them offers anything: not the own one, not that of the other profile, and
/// not one in any target directory of any other worktree.
pub proof fn a_search_gives_the_first_that_is_offered(
    world: World,
    env: EnvModel,
    out_dir: PathModel,
    context: ContextModel,
)
    requires
        context_of(out_dir, env.target) == Some(context),
    ensures
        ({
            let roots = roots_to_search(world, env, context);
            match found_build(world, env, out_dir) {
                Some(cache) => exists|i: int|
                    0 <= i < roots.len() && found_in_root(world, env, #[trigger] roots[i], out_dir)
                        == Some(cache) && forall|j: int|
                        0 <= j < i ==> offers_nothing(world, env, #[trigger] roots[j], out_dir),
                None => forall|i: int|
                    0 <= i < roots.len() ==> offers_nothing(
                        world,
                        env,
                        #[trigger] roots[i],
                        out_dir,
                    ),
            }
        }),
{
    a_list_of_roots_gives_its_first(world, env, out_dir, roots_to_search(world, env, context));
    a_context_is_searched_root_by_root(world, env, context, out_dir);
}

proof fn a_list_of_roots_gives_its_first(
    world: World,
    env: EnvModel,
    out_dir: PathModel,
    roots: Seq<PathModel>,
)
    ensures
        match first_found(roots, found_at(world, env, out_dir)) {
            Some(cache) => exists|i: int|
                0 <= i < roots.len() && found_in_root(world, env, #[trigger] roots[i], out_dir)
                    == Some(cache) && forall|j: int|
                    0 <= j < i ==> offers_nothing(world, env, #[trigger] roots[j], out_dir),
            None => forall|i: int|
                0 <= i < roots.len() ==> offers_nothing(world, env, #[trigger] roots[i], out_dir),
        },
{
    let find = found_at(world, env, out_dir);
    first_found_comes_from_an_item(roots, find);
    assert forall|i: int|
        0 <= i < roots.len() && find(#[trigger] roots[i]) is None implies offers_nothing(
        world,
        env,
        roots[i],
        out_dir,
    ) by {
        a_root_gives_the_first_that_it_offers(world, env, roots[i], out_dir);
    }
    if let Some(cache) = first_found(roots, find) {
        let i = choose|i: int|
            0 <= i < roots.len() && #[trigger] find(roots[i]) == Some(cache) && forall|j: int|
                0 <= j < i ==> #[trigger] find(roots[j]) is None;
        assert forall|j: int| 0 <= j < i implies offers_nothing(
            world,
            env,
            #[trigger] roots[j],
            out_dir,
        ) by {
            assert(find(roots[j]) is None);
        }
        assert(found_in_root(world, env, roots[i], out_dir) == Some(cache));
    } else {
        assert forall|i: int| 0 <= i < roots.len() implies offers_nothing(
            world,
            env,
            #[trigger] roots[i],
            out_dir,
        ) by {
            assert(find(roots[i]) is None);
        }
    }
}

/// The same of the other worktrees alone.
pub proof fn the_other_worktrees_give_the_first_that_is_offered(
    world: World,
    env: EnvModel,
    context: ContextModel,
    out_dir: PathModel,
)
    ensures
        ({
            let roots = roots_elsewhere(world, env, context);
            match found_in_worktrees(world, env, context, out_dir) {
                Some(cache) => exists|i: int|
                    0 <= i < roots.len() && found_in_root(world, env, #[trigger] roots[i], out_dir)
                        == Some(cache) && forall|j: int|
                        0 <= j < i ==> offers_nothing(world, env, #[trigger] roots[j], out_dir),
                None => forall|i: int|
                    0 <= i < roots.len() ==> offers_nothing(
                        world,
                        env,
                        #[trigger] roots[i],
                        out_dir,
                    ),
            }
        }),
{
    a_list_of_roots_gives_its_first(world, env, out_dir, roots_elsewhere(world, env, context));
    worktrees_are_searched_root_by_root(world, env, context, out_dir);
}

proof fn joined_holds_what_is_yielded<A, B>(
    items: Seq<A>,
    yields: spec_fn(A) -> Seq<B>,
    i: int,
    value: B,
)
    requires
        0 <= i < items.len(),
        yields(items[i]).contains(value),
    ensures
        joined(items, yields).contains(value),
    decreases i,
{
    let first = yields(items[0]);
    let rest = joined(items.drop_first(), yields);
    if i == 0 {
        let k = choose|k: int| 0 <= k < first.len() && first[k] == value;
        assert((first + rest)[k] == value);
    } else {
        assert(items.drop_first()[i - 1] == items[i]);
        joined_holds_what_is_yielded(items.drop_first(), yields, i - 1, value);
        let k = choose|k: int| 0 <= k < rest.len() && rest[k] == value;
        assert((first + rest)[first.len() + k] == value);
    }
}

/// If the search of the other worktrees finds nothing, then no build root offers anything, in
/// whichever other worktree, whichever of its target directories and whichever profile.
pub proof fn no_other_worktree_is_left_out(
    world: World,
    env: EnvModel,
    context: ContextModel,
    out_dir: PathModel,
    git: PathModel,
    worktree: PathModel,
    target_dir: PathModel,
    profile: Seq<char>,
)
    requires
        found_in_worktrees(world, env, context, out_dir) is None,
        git_root(world, context.current_target_root) == Some(git),
        sibling_worktrees(world, env.windows, git).contains(worktree),
        target_directories(world, worktree).contains(target_dir),
        profile == "debug"@ || profile == "release"@,
    ensures
        ({
            let dir = match context.target_triple {
                Some(triple) => at(target_dir, triple),
                None => target_dir,
            };
            &&& offers_nothing(world, env, at(at(dir, profile), "build"@), out_dir)
            &&& found_in_root(world, env, at(at(dir, profile), "build"@), out_dir) is None
        }),
        context.target_triple is None && env.target is Some && is_plain_name(env.target->0)
            && profile == context.profile() ==> offers_nothing(
            world,
            env,
            at(at(at(target_dir, env.target->0), profile), "build"@),
            out_dir,
        ),
{
    the_other_worktrees_give_the_first_that_is_offered(world, env, context, out_dir);
    the_kind_of_a_build_is_told_by_names(context, target_dir);
    let list = sibling_worktrees(world, env.windows, git);
    let targets = target_directories(world, worktree);
    let in_target = |target_dir: PathModel| roots_in_target(world, env, context, target_dir);
    let in_worktree = |worktree: PathModel|
        joined(
            target_directories(world, worktree),
            |target_dir: PathModel| roots_in_target(world, env, context, target_dir),
        );
    let all = roots_elsewhere(world, env, context);
    assert(all == joined(list, in_worktree));
    let i = choose|i: int| 0 <= i < list.len() && list[i] == worktree;
    let k = choose|k: int| 0 <= k < targets.len() && targets[k] == target_dir;
    let roots = roots_in_target(world, env, context, target_dir);
    assert forall|m: int| 0 <= m < roots.len() implies offers_nothing(
        world,
        env,
        #[trigger] roots[m],
        out_dir,
    ) by {
        assert(in_target(targets[k]).contains(roots[m]));
        joined_holds_what_is_yielded(targets, in_target, k, roots[m]);
        assert(in_worktree(list[i]).contains(roots[m]));
        joined_holds_what_is_yielded(list, in_worktree, i, roots[m]);
        let n = choose|n: int| 0 <= n < all.len() && all[n] == roots[m];
        assert(offers_nothing(world, env, all[n], out_dir));
    }
    let dir = match context.target_triple {
        Some(triple) => at(target_dir, triple),
        None => target_dir,
    };
    let root = at(at(dir, profile), "build"@);
    assert(roots[0] == root || roots[1] == root);
    a_root_gives_the_first_that_it_offers(world, env, root, out_dir);
    if context.target_triple is None && env.target is Some {
        assert(roots.len() == 3);
        assert(offers_nothing(world, env, roots[2], out_dir));
    }
}

/// If a search finds nothing, then neither the first build root nor the one beside it that belongs
/// to the other profile offers anything, whichever profile is built.
pub proof fn no_profile_is_left_out(
    world: World,
    env: EnvModel,
    out_dir: PathModel,
    context: ContextModel,
    directory: PathModel,
)
    requires
        context_of(out_dir, env.target) == Some(context),
        found_build(world, env, out_dir) is None,
        parent(context.cargo_root()) matches Some(profile) && parent(profile) == Some(directory),
    ensures
        offers_nothing(world, env, context.cargo_root(), out_dir),
        found_in_root(world, env, context.cargo_root(), out_dir) is None,
        ({
            let other = at(
                at(
                    directory,
                    if context.is_release() {
                        "debug"@
                    } else {
                        "release"@
                    },
                ),
                "build"@,
            );
            &&& offers_nothing(world, env, other, out_dir)
            &&& found_in_root(world, env, other, out_dir) is None
        }),
{
    a_search_gives_the_first_that_is_offered(world, env, out_dir, context);
    let roots = roots_to_search(world, env, context);
    let first = context.cargo_root();
    let profile = parent(first)->0;
    assert(first =~= directory.push(profile.last()).push(first.last()));
    crate::context::each_profile_has_a_sibling(
        directory,
        profile.last(),
        first.last(),
        context.is_release(),
    );
    let other = sibling_of(first, context.is_release())->0;
    assert(roots[0] == first);
    if other != first {
        assert(roots[1] == other);
    }
    a_root_gives_the_first_that_it_offers(world, env, first, out_dir);
    a_root_gives_the_first_that_it_offers(world, env, other, out_dir);
}

} // verus!
