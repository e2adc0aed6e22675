//! Which worktrees and target directories there are to search, said of the answers of the host alone.
use vstd::prelude::*;

use crate::context::a_target_name_is_target_and_more;
use crate::git::{all_worktrees, common_git_dir, directory_named, git_root, gitdir_in};
use crate::git::{is_elsewhere, linked_worktree, listed_path, listed_paths};
use crate::git::{has_git_entry, listed_worktrees, recorded_worktrees};
use crate::git::sibling_worktrees;
use crate::meaning::{at, yes};
use crate::observe::{resolve, AnswerModel, QueryModel, World};
use crate::order::{filter_keeps_in_order, filter_map_keeps_in_order, kept};
use crate::path::{nearest_is_the_closest_ancestor, parent};
use crate::path::{ComponentModel, NameModel, PathModel};
use crate::search::is_same;
use crate::text::{a_prefix_and_the_rest_are_the_text, lines, lines_are_cut_at_line_feeds};
use crate::text::{text_of, trim};
use crate::worktree::{custom_target, target_directories};

verus! {

/// The root of a repository is the nearest directory, from the start upwards, that has a `.git` of
/// whatever kind; there is none only if no directory above the start, or the start, has one.
pub proof fn the_repository_is_the_nearest(world: World, start: PathModel)
    ensures
        match git_root(world, start) {
            Some(root) => {
                &&& root == start.take(root.len() as int) && root.len() <= start.len()
                &&& yes(world, QueryModel::Exists(at(root, ".git"@)))
                &&& forall|n: int|
                    root.len() < n <= start.len() ==> !yes(
                        world,
                        QueryModel::Exists(at(#[trigger] start.take(n), ".git"@)),
                    )
                &&& forall|j: int|
                    root.len() <= j < start.len() ==> !(#[trigger] start[j] is RootDir) && !(
                    start[j] is Prefix)
            },
            None => forall|n: int|
                0 <= n <= start.len() && (forall|j: int|
                    n <= j < start.len() ==> !(#[trigger] start[j] is RootDir) && !(
                    start[j] is Prefix)) ==> !yes(
                    world,
                    QueryModel::Exists(at(#[trigger] start.take(n), ".git"@)),
                ),
        },
{
    let holds = has_git_entry(world);
    nearest_is_the_closest_ancestor(start, holds);
    assert forall|n: int|
        0 <= n <= start.len() && (forall|j: int|
            n <= j < start.len() ==> !(#[trigger] start[j] is RootDir) && !(start[j] is Prefix))
            && yes(world, QueryModel::Exists(at(#[trigger] start.take(n), ".git"@))) implies
        crate::path::is_ancestor(start.take(n), start) && holds(start.take(n)) by {
        assert(start.take(n) =~= start.subrange(0, n));
    }
    if let Some(root) = git_root(world, start) {
        assert(root =~= start.take(root.len() as int));
        assert forall|j: int| root.len() <= j < start.len() implies !(#[trigger] start[j] is RootDir)
            && !(start[j] is Prefix) by {
            assert(crate::path::is_removable(start[j]));
        }
    }
}

proof fn kept_in_two<A, B>(a: Seq<A>, b: Seq<A>, keep: spec_fn(A) -> Option<B>)
    ensures
        kept(a + b, keep) == kept(a, keep) + kept(b, keep),
    decreases a.len(),
{
    if a.len() == 0 {
        assert(a + b =~= b);
        assert(kept(a, keep) + kept(b, keep) =~= kept(b, keep));
    } else {
        assert((a + b).drop_first() =~= a.drop_first() + b);
        kept_in_two(a.drop_first(), b, keep);
        assert(kept(a + b, keep) =~= kept(a, keep) + kept(b, keep));
    }
}

/// The list that Git prints is read line by line: a line that starts with `worktree ` names the path
/// that follows, without white space around it, and any other line names nothing.
pub proof fn a_list_is_read_line_by_line(line: Seq<char>, rest: Seq<char>, path: Seq<char>)
    requires
        !line.contains('\n'),
    ensures
        line == "worktree "@ + path && (line.last() != '\r') ==> listed_paths(
            line.push('\n') + rest,
        ) == seq![trim(path)] + listed_paths(rest),
        line == ("worktree "@ + path).push('\r') ==> listed_paths(line.push('\n') + rest) == seq![
            trim(path),
        ] + listed_paths(rest),
        !"worktree "@.is_prefix_of(line) ==> listed_paths(line.push('\n') + rest) == listed_paths(
            rest,
        ),
        line == "worktree "@ + path ==> listed_paths(line) == seq![trim(path)],
        !"worktree "@.is_prefix_of(line) ==> listed_paths(line).len() == 0,
        listed_paths(Seq::empty()).len() == 0,
{
    reveal_strlit("worktree ");
    let f = |line: Seq<char>| listed_path(line);
    let text = line.push('\n') + rest;
    let first = if line.len() > 0 && line.last() == '\r' {
        line.drop_last()
    } else {
        line
    };
    lines_are_cut_at_line_feeds(line, rest);
    filter_map_keeps_in_order(lines(text), f);
    filter_map_keeps_in_order(lines(rest), f);
    filter_map_keeps_in_order(lines(line), f);
    kept_in_two(seq![first], lines(rest), f);
    one_is_kept(first, f);
    one_is_kept(line, f);
    a_prefix_and_the_rest_are_the_text(first, "worktree "@);
    a_prefix_and_the_rest_are_the_text(line, "worktree "@);
    assert("worktree "@ + path == ("worktree "@ + path));
    if line == ("worktree "@ + path).push('\r') {
        assert(first =~= "worktree "@ + path);
        assert(listed_path(first) == Some(trim(path)));
    }
    if line == "worktree "@ + path {
        assert(listed_path(line) == Some(trim(path)));
    }
    if !"worktree "@.is_prefix_of(line) {
        if "worktree "@.is_prefix_of(first) {
            assert("worktree "@ =~= line.subrange(0, "worktree "@.len() as int));
        }
        assert(listed_path(first) is None);
        assert(Seq::<Seq<char>>::empty() + kept(lines(rest), f) =~= kept(lines(rest), f));
    }
    let none = Seq::<Seq<char>>::empty();
    assert(lines(Seq::empty()) =~= none);
    assert(none.filter_map(f).len() == 0);
}

proof fn one_is_kept<A, B>(item: A, keep: spec_fn(A) -> Option<B>)
    ensures
        kept(seq![item], keep) == (match keep(item) {
            Some(value) => seq![value],
            None => Seq::empty(),
        }),
{
    assert(seq![item].drop_first() =~= Seq::empty());
    assert(kept(seq![item].drop_first(), keep) =~= Seq::empty());
    assert(kept(seq![item], keep) =~= (match keep(item) {
        Some(value) => seq![value],
        None => Seq::empty(),
    }));
}

/// Of the paths that Git lists, in that order, those are worktrees that lead to a directory. Where
/// Git says nothing, none is.
pub proof fn listed_worktrees_are_those_that_are_there(world: World, root: PathModel)
    ensures
        match world[QueryModel::Worktrees(root)] {
            AnswerModel::Output(Some(output)) => listed_worktrees(world, root) == kept(
                listed_paths(text_of(output)),
                |text: Seq<char>|
                    {
                        let path = resolve(world, Seq::empty(), text);
                        if yes(world, QueryModel::IsDir(path)) {
                            Some(path)
                        } else {
                            None
                        }
                    },
            ),
            _ => listed_worktrees(world, root).len() == 0,
        },
{
    if let AnswerModel::Output(Some(output)) = world[QueryModel::Worktrees(root)] {
        let f = directory_named(world);
        let g = |text: Seq<char>|
            {
                let path = resolve(world, Seq::empty(), text);
                if yes(world, QueryModel::IsDir(path)) {
                    Some(path)
                } else {
                    None
                }
            };
        filter_map_keeps_in_order(listed_paths(text_of(output)), f);
        assert(f =~= g);
    }
}

/// A `.git` file leads to the directory that its first line with `gitdir:` names, wherever in the
/// file that line stands.
pub proof fn the_first_gitdir_line_counts(found: Seq<Seq<char>>, i: int, dir: Seq<char>)
    requires
        0 <= i <= found.len(),
        forall|j: int| 0 <= j < i ==> !"gitdir:"@.is_prefix_of(#[trigger] found[j]),
    ensures
        i < found.len() && found[i] == "gitdir:"@ + dir ==> gitdir_in(found) == Some(trim(dir)),
        i == found.len() ==> gitdir_in(found) is None,
    decreases i,
{
    if i > 0 {
        let rest = found.drop_first();
        assert(!"gitdir:"@.is_prefix_of(found[0]));
        assert forall|j: int| 0 <= j < i - 1 implies !"gitdir:"@.is_prefix_of(
            #[trigger] rest[j],
        ) by {
            assert(rest[j] == found[j + 1]);
        }
        the_first_gitdir_line_counts(rest, i - 1, dir);
    } else if found.len() > 0 && found[0] == "gitdir:"@ + dir {
        a_prefix_and_the_rest_are_the_text(found[0], "gitdir:"@);
        assert("gitdir:"@ + dir == found[0]);
    }
}

/// The Git directory that all worktrees share. Where `.git` is a directory and no file, it is that.
/// Where it is a file that names a directory, it is the one that the `commondir` there names: as it
/// is written if it ends in a name, else as the host resolves it, if it does; and without
/// `commondir` it is two levels up, if there are two. In all other cases there is none.
pub proof fn the_shared_git_directory(
    world: World,
    root: PathModel,
    text: Seq<char>,
    dir: Seq<char>,
    common: Seq<char>,
    place: PathModel,
)
    ensures
        ({
            let git = at(root, ".git"@);
            let own = resolve(world, Seq::empty(), dir);
            let joined = resolve(world, own, trim(common));
            let is_file = yes(world, QueryModel::IsFile(git));
            let is_dir = yes(world, QueryModel::IsDir(git));
            let reads = world[QueryModel::Content(git)] == AnswerModel::Text(Some(text));
            let file = QueryModel::Content(at(own, "commondir"@));
            let named = joined.len() > 0 && joined.last() is Normal;
            let leads = world[QueryModel::Canonical(joined)] == AnswerModel::Path(Some(place));
            &&& !is_file && is_dir ==> common_git_dir(world, root) == Some(git)
            &&& !is_file && !is_dir ==> common_git_dir(world, root) is None
            &&& is_file && reads && gitdir_in(lines(text)) is None ==> common_git_dir(
                world,
                root,
            ) is None
            &&& is_file && !(world[QueryModel::Content(git)] matches AnswerModel::Text(Some(_)))
                ==> common_git_dir(world, root) is None
            &&& is_file && reads && gitdir_in(lines(text)) == Some(dir) ==> {
                &&& world[file] == AnswerModel::Text(Some(common)) && named ==> common_git_dir(
                    world,
                    root,
                ) == Some(joined)
                &&& world[file] == AnswerModel::Text(Some(common)) && !named && leads
                    ==> common_git_dir(world, root) == Some(place)
                &&& world[file] == AnswerModel::Text(Some(common)) && !named && !(
                world[QueryModel::Canonical(joined)] matches AnswerModel::Path(Some(_)))
                    ==> common_git_dir(world, root) == Some(joined)
                &&& !(world[file] matches AnswerModel::Text(Some(_))) ==> common_git_dir(
                    world,
                    root,
                ) == Some(
                    if parent(own) matches Some(up) && parent(up) is Some {
                        own.take(own.len() - 2)
                    } else {
                        own
                    },
                )
            }
        }),
{
    let own = resolve(world, Seq::empty(), dir);
    if own.len() >= 2 {
        assert(own.drop_last().drop_last() =~= own.take(own.len() - 2));
    }
}

/// The worktrees that the files of a repository name: that of the shared Git directory, if it is
/// there, then for each entry of `worktrees`, in order, the one whose `.git` its `gitdir` names.
pub proof fn recorded_worktrees_are_those_that_are_there(
    world: World,
    root: PathModel,
    git_dir: PathModel,
)
    ensures
        common_git_dir(world, root) is None ==> recorded_worktrees(world, root).len() == 0,
        common_git_dir(world, root) == Some(git_dir) ==> {
            let directory = at(git_dir, "worktrees"@);
            let main: Seq<PathModel> = match parent(git_dir) {
                Some(up) if yes(world, QueryModel::IsDir(up)) => seq![up],
                _ => Seq::empty(),
            };
            recorded_worktrees(world, root) == main + match world[QueryModel::Entries(directory)] {
                AnswerModel::Names(Some(names)) => kept(
                    names,
                    |name: NameModel|
                        {
                            let file = at(directory.push(ComponentModel::Normal(name)), "gitdir"@);
                            match world[QueryModel::Content(file)] {
                                AnswerModel::Text(Some(text)) => match parent(
                                    resolve(world, Seq::empty(), trim(text)),
                                ) {
                                    Some(up) if yes(world, QueryModel::IsDir(up)) => Some(up),
                                    _ => None,
                                },
                                _ => None,
                            }
                        },
                ),
                _ => Seq::empty(),
            }
        },
{
    if common_git_dir(world, root) == Some(git_dir) {
        let directory = at(git_dir, "worktrees"@);
        if let AnswerModel::Names(Some(names)) = world[QueryModel::Entries(directory)] {
            let f = linked_worktree(world, directory);
            let g = |name: NameModel|
                {
                    let file = at(directory.push(ComponentModel::Normal(name)), "gitdir"@);
                    match world[QueryModel::Content(file)] {
                        AnswerModel::Text(Some(text)) => match parent(
                            resolve(world, Seq::empty(), trim(text)),
                        ) {
                            Some(up) if yes(world, QueryModel::IsDir(up)) => Some(up),
                            _ => None,
                        },
                        _ => None,
                    }
                };
            filter_map_keeps_in_order(names, f);
            assert(f =~= g);
        }
    }
}

/// The worktrees to search are those that Git lists or, if it lists none that is there, those that
/// the files name; in that order, and all of them but those that are the same place as the root.
pub proof fn the_other_worktrees_are_all_but_the_own(
    world: World,
    windows: bool,
    root: PathModel,
)
    ensures
        sibling_worktrees(world, windows, root) == kept(
            if listed_worktrees(world, root).len() != 0 {
                listed_worktrees(world, root)
            } else {
                recorded_worktrees(world, root)
            },
            |path: PathModel|
                if is_same(world, windows, path, root) {
                    None
                } else {
                    Some(path)
                },
        ),
{
    let keep = is_elsewhere(world, windows, root);
    let f = |path: PathModel|
        if keep(path) {
            Some(path)
        } else {
            None
        };
    let g = |path: PathModel|
        if is_same(world, windows, path, root) {
            None
        } else {
            Some(path)
        };
    filter_keeps_in_order(all_worktrees(world, root), keep);
    assert(f =~= g);
}

/// The target directories of a worktree: `target`, if it is a directory, then, in the order in which
/// they are listed, all directories whose name is `target-` and anything.
pub proof fn the_target_directories_of_a_worktree(world: World, worktree: PathModel)
    ensures
        ({
            let standard: Seq<PathModel> = if yes(
                world,
                QueryModel::IsDir(at(worktree, "target"@)),
            ) {
                seq![at(worktree, "target"@)]
            } else {
                Seq::empty()
            };
            target_directories(world, worktree) == standard + match world[QueryModel::Entries(
                worktree,
            )] {
                AnswerModel::Names(Some(names)) => kept(
                    names,
                    |name: NameModel|
                        {
                            let path = worktree.push(ComponentModel::Normal(name));
                            if yes(world, QueryModel::IsDir(path)) && (name matches NameModel::Text(
                                text,
                            ) && exists|rest: Seq<char>| text == #[trigger] ("target-"@ + rest)) {
                                Some(path)
                            } else {
                                None
                            }
                        },
                ),
                _ => Seq::empty(),
            }
        }),
{
    if let AnswerModel::Names(Some(names)) = world[QueryModel::Entries(worktree)] {
        let f = custom_target(world, worktree);
        let g = |name: NameModel|
            {
                let path = worktree.push(ComponentModel::Normal(name));
                if yes(world, QueryModel::IsDir(path)) && (name matches NameModel::Text(text)
                    && exists|rest: Seq<char>| text == #[trigger] ("target-"@ + rest)) {
                    Some(path)
                } else {
                    None
                }
            };
        filter_map_keeps_in_order(names, f);
        assert forall|name: NameModel| #[trigger] f(name) == g(name) by {
            a_target_name_is_target_and_more(name);
        }
        assert(f =~= g);
    }
}

} // verus!
