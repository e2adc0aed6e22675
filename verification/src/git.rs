//! The worktrees of the Git repository that a build belongs to.
use vstd::prelude::*;

use crate::observe::{also, content, each_asked, entries, exists_at, first_unseen, is_dir};
use crate::observe::{each_asked_unfolds, group_settle};
use crate::observe::{canonical, is_file, resolve, settle, worktrees};
use crate::observe::{Observations, Progress, ProgressModel, QueryModel, World};
use crate::path::{child, entry, file_name, nearest, parent};
use crate::path::{HostPath, Name, NameModel, PathModel};
use crate::search::{is_same, is_same_path, same_asked};
use crate::text::{read_text, split_lines, trimmed, without_prefix};
use crate::text::{lines, strip_prefix, text_of, trim};

verus! {

pub const GIT_ENTRY: &'static str = ".git";

pub const GITDIR_PREFIX: &'static str = "gitdir:";

pub const GITDIR_FILE: &'static str = "gitdir";

pub const COMMONDIR_FILE: &'static str = "commondir";

pub const WORKTREES_DIR: &'static str = "worktrees";

pub const WORKTREE_PREFIX: &'static str = "worktree ";

/// Whether a directory is the root of a worktree, as a predicate on paths.
pub open spec fn has_git_entry(world: World) -> spec_fn(PathModel) -> bool {
    |directory: PathModel| exists_at(world, child(directory, GIT_ENTRY@))
}

/// The root of the worktree that contains `start`.
pub open spec fn git_root(world: World, start: PathModel) -> Option<PathModel> {
    nearest(start, has_git_entry(world))
}

pub open spec fn git_root_asked(world: World, start: PathModel) -> Seq<QueryModel>
    decreases start.len(),
{
    seq![QueryModel::Exists(child(start, GIT_ENTRY@))] + match parent(start) {
        Some(up) => also(
            !exists_at(world, child(start, GIT_ENTRY@)),
            git_root_asked(world, up),
        ),
        None => Seq::empty(),
    }
}

/// The path that a line of `git worktree list --porcelain` names, if it names one.
pub open spec fn listed_path(line: Seq<char>) -> Option<Seq<char>> {
    match strip_prefix(line, WORKTREE_PREFIX@) {
        Some(rest) => Some(trim(rest)),
        None => None,
    }
}

/// The paths that the output of `git worktree list --porcelain` names.
pub open spec fn listed_paths(output: Seq<char>) -> Seq<Seq<char>> {
    lines(output).filter_map(|line: Seq<char>| listed_path(line))
}

/// The path that a text means on its own.
pub open spec fn path_of(world: World, text: Seq<char>) -> PathModel {
    resolve(world, Seq::empty(), text)
}

/// The directory that a text names, if there is one.
pub open spec fn directory_named(world: World) -> spec_fn(Seq<char>) -> Option<PathModel> {
    |text: Seq<char>|
        if is_dir(world, path_of(world, text)) {
            Some(path_of(world, text))
        } else {
            None
        }
}

pub open spec fn directory_named_asked(world: World) -> spec_fn(Seq<char>) -> Seq<QueryModel> {
    |text: Seq<char>|
        seq![QueryModel::Resolve(Seq::empty(), text)] + seq![
            QueryModel::IsDir(path_of(world, text)),
        ]
}

/// The worktrees that Git lists and that are there.
pub open spec fn listed_worktrees(world: World, root: PathModel) -> Seq<PathModel> {
    match worktrees(world, root) {
        Some(output) => listed_paths(text_of(output)).filter_map(directory_named(world)),
        None => Seq::empty(),
    }
}

pub open spec fn listed_worktrees_asked(world: World, root: PathModel) -> Seq<QueryModel> {
    seq![QueryModel::Worktrees(root)] + match worktrees(world, root) {
        Some(output) => each_asked(
            listed_paths(text_of(output)),
            directory_named_asked(world),
        ),
        None => Seq::empty(),
    }
}

/// What the first line that starts with `gitdir:` says.
pub open spec fn gitdir_in(lines: Seq<Seq<char>>) -> Option<Seq<char>>
    decreases lines.len(),
{
    if lines.len() == 0 {
        None
    } else {
        match strip_prefix(lines[0], GITDIR_PREFIX@) {
            Some(rest) => Some(trim(rest)),
            None => gitdir_in(lines.drop_first()),
        }
    }
}

/// The directory two levels up, or the path itself where there is none.
pub open spec fn two_up(path: PathModel) -> PathModel {
    match parent(path) {
        Some(up) => match parent(up) {
            Some(upper) => upper,
            None => path,
        },
        None => path,
    }
}

/// The path, if it ends in a name. One that does not, such as one that ends in `..`, has no parent
/// to speak of: it is what the host resolves it to, or the path itself where that is nothing.
pub open spec fn resolved(world: World, path: PathModel) -> PathModel {
    if file_name(path) is Some {
        path
    } else {
        match canonical(world, path) {
            Some(place) => place,
            None => path,
        }
    }
}

/// The Git directory that all worktrees share, from the one of a linked worktree: the one that a
/// file in it names, else the one two levels up.
pub open spec fn shared_git_dir(world: World, git_dir: PathModel) -> PathModel {
    match content(world, child(git_dir, COMMONDIR_FILE@)) {
        Some(text) => resolved(world, resolve(world, git_dir, trim(text))),
        None => two_up(git_dir),
    }
}

pub open spec fn shared_git_dir_asked(world: World, git_dir: PathModel) -> Seq<QueryModel> {
    seq![QueryModel::Content(child(git_dir, COMMONDIR_FILE@))] + match content(
        world,
        child(git_dir, COMMONDIR_FILE@),
    ) {
        Some(text) => seq![QueryModel::Resolve(git_dir, trim(text))] + also(
            file_name(resolve(world, git_dir, trim(text))) is None,
            seq![QueryModel::Canonical(resolve(world, git_dir, trim(text)))],
        ),
        None => Seq::empty(),
    }
}

/// The Git directory that a `.git` file leads to.
pub open spec fn linked_git_dir(world: World, git_file: PathModel) -> Option<PathModel> {
    match content(world, git_file) {
        Some(text) => match gitdir_in(lines(text)) {
            Some(dir) => Some(shared_git_dir(world, path_of(world, dir))),
            None => None,
        },
        None => None,
    }
}

pub open spec fn linked_git_dir_asked(world: World, git_file: PathModel) -> Seq<QueryModel> {
    seq![QueryModel::Content(git_file)] + match content(world, git_file) {
        Some(text) => match gitdir_in(lines(text)) {
            Some(dir) => seq![QueryModel::Resolve(Seq::empty(), dir)] + shared_git_dir_asked(
                world,
                path_of(world, dir),
            ),
            None => Seq::empty(),
        },
        None => Seq::empty(),
    }
}

/// The Git directory that all worktrees of the repository share: where `.git` is a file, the one
/// that it leads to; where it is a directory, that.
pub open spec fn common_git_dir(world: World, root: PathModel) -> Option<PathModel> {
    let git = child(root, GIT_ENTRY@);
    if is_file(world, git) {
        linked_git_dir(world, git)
    } else if is_dir(world, git) {
        Some(git)
    } else {
        None
    }
}

pub open spec fn common_git_dir_asked(world: World, root: PathModel) -> Seq<QueryModel> {
    let git = child(root, GIT_ENTRY@);
    seq![QueryModel::IsFile(git)] + if is_file(world, git) {
        linked_git_dir_asked(world, git)
    } else {
        seq![QueryModel::IsDir(git)]
    }
}

/// The worktree that an entry of the shared Git directory belongs to, if it is there.
pub open spec fn linked_worktree(world: World, directory: PathModel) -> spec_fn(
    NameModel,
) -> Option<PathModel> {
    |name: NameModel|
        match content(world, child(entry(directory, name), GITDIR_FILE@)) {
            Some(text) => match parent(path_of(world, trim(text))) {
                Some(root) => if is_dir(world, root) {
                    Some(root)
                } else {
                    None
                },
                None => None,
            },
            None => None,
        }
}

pub open spec fn linked_worktree_asked(world: World, directory: PathModel) -> spec_fn(
    NameModel,
) -> Seq<QueryModel> {
    |name: NameModel|
        {
            let file = child(entry(directory, name), GITDIR_FILE@);
            seq![QueryModel::Content(file)] + match content(world, file) {
                Some(text) => seq![QueryModel::Resolve(Seq::empty(), trim(text))] + match parent(
                    path_of(world, trim(text)),
                ) {
                    Some(root) => seq![QueryModel::IsDir(root)],
                    None => Seq::empty(),
                },
                None => Seq::empty(),
            }
        }
}

pub open spec fn main_worktree(world: World, git_dir: PathModel) -> Seq<PathModel> {
    match parent(git_dir) {
        Some(root) => if is_dir(world, root) {
            seq![root]
        } else {
            Seq::empty()
        },
        None => Seq::empty(),
    }
}

pub open spec fn main_worktree_asked(git_dir: PathModel) -> Seq<QueryModel> {
    match parent(git_dir) {
        Some(root) => seq![QueryModel::IsDir(root)],
        None => Seq::empty(),
    }
}

pub open spec fn linked_worktrees(world: World, directory: PathModel) -> Seq<PathModel> {
    match entries(world, directory) {
        Some(names) => names.filter_map(linked_worktree(world, directory)),
        None => Seq::empty(),
    }
}

pub open spec fn linked_worktrees_asked(world: World, directory: PathModel) -> Seq<QueryModel> {
    seq![QueryModel::Entries(directory)] + match entries(world, directory) {
        Some(names) => each_asked(names, linked_worktree_asked(world, directory)),
        None => Seq::empty(),
    }
}

/// The worktrees that the files of the repository name: the main one, then the linked ones.
pub open spec fn recorded_worktrees(world: World, root: PathModel) -> Seq<PathModel> {
    match common_git_dir(world, root) {
        Some(git_dir) => main_worktree(world, git_dir) + linked_worktrees(
            world,
            child(git_dir, WORKTREES_DIR@),
        ),
        None => Seq::empty(),
    }
}

pub open spec fn recorded_worktrees_asked(world: World, root: PathModel) -> Seq<QueryModel> {
    common_git_dir_asked(world, root) + match common_git_dir(world, root) {
        Some(git_dir) => main_worktree_asked(git_dir) + linked_worktrees_asked(
            world,
            child(git_dir, WORKTREES_DIR@),
        ),
        None => Seq::empty(),
    }
}

/// All worktrees of the repository: those that Git lists or, where it lists none, those that the
/// files of the repository name.
pub open spec fn all_worktrees(world: World, root: PathModel) -> Seq<PathModel> {
    if listed_worktrees(world, root).len() > 0 {
        listed_worktrees(world, root)
    } else {
        recorded_worktrees(world, root)
    }
}

pub open spec fn all_worktrees_asked(world: World, root: PathModel) -> Seq<QueryModel> {
    listed_worktrees_asked(world, root) + also(
        listed_worktrees(world, root).len() == 0,
        recorded_worktrees_asked(world, root),
    )
}

/// Whether a path is another place than `root`, as a predicate on paths.
pub open spec fn is_elsewhere(world: World, windows: bool, root: PathModel) -> spec_fn(
    PathModel,
) -> bool {
    |path: PathModel| !is_same(world, windows, path, root)
}

pub open spec fn elsewhere_asked(world: World, windows: bool, root: PathModel) -> spec_fn(
    PathModel,
) -> Seq<QueryModel> {
    |path: PathModel| same_asked(world, windows, path, root)
}

/// The worktrees of the repository other than the one at `root`.
pub open spec fn sibling_worktrees(world: World, windows: bool, root: PathModel) -> Seq<PathModel> {
    all_worktrees(world, root).filter(is_elsewhere(world, windows, root))
}

pub open spec fn sibling_worktrees_asked(world: World, windows: bool, root: PathModel) -> Seq<
    QueryModel,
> {
    all_worktrees_asked(world, root) + each_asked(
        all_worktrees(world, root),
        elsewhere_asked(world, windows, root),
    )
}

/// The arguments that make `git` list the worktrees of the repository at a directory; the current
/// one where that is not Unicode.
pub fn git_worktree_args(root: Option<&str>) -> (args: Vec<String>)
    ensures
        args.deep_view() == seq![
            "-C"@,
            match root {
                Some(text) => text@,
                None => "."@,
            },
            "worktree"@,
            "list"@,
            "--porcelain"@,
        ],
{
    let directory = match root {
        Some(text) => text.to_owned(),
        None => ".".to_owned(),
    };
    let mut args: Vec<String> = Vec::new();
    args.push("-C".to_owned());
    args.push(directory);
    args.push("worktree".to_owned());
    args.push("list".to_owned());
    args.push("--porcelain".to_owned());
    assert(args.deep_view() =~= seq![
        "-C"@,
        match root {
            Some(text) => text@,
            None => "."@,
        },
        "worktree"@,
        "list"@,
        "--porcelain"@,
    ]);
    args
}

proof fn git_root_unfolds(world: World, start: PathModel)
    ensures
        settle(world, git_root_asked(world, start), git_root(world, start)) == if first_unseen(
            world,
            seq![QueryModel::Exists(child(start, GIT_ENTRY@))],
        ) is Some {
            ProgressModel::Need(QueryModel::Exists(child(start, GIT_ENTRY@)))
        } else if exists_at(world, child(start, GIT_ENTRY@)) {
            ProgressModel::Done(Some(start))
        } else {
            match parent(start) {
                Some(up) => settle(world, git_root_asked(world, up), git_root(world, up)),
                None => ProgressModel::Done(None),
            }
        },
{
    broadcast use group_settle;

}

/// Locates the root of the worktree that contains `start_dir`.
pub fn find_git_root(seen: &Observations, start_dir: &HostPath) -> (found: Progress<
    Option<HostPath>,
>)
    ensures
        found@ == settle(
            seen@,
            git_root_asked(seen@, start_dir@),
            git_root(seen@, start_dir@),
        ),
{
    let mut current = start_dir.clone();
    loop
        invariant
            settle(
                seen@,
                git_root_asked(seen@, start_dir@),
                git_root(seen@, start_dir@),
            ) == settle(seen@, git_root_asked(seen@, current@), git_root(seen@, current@)),
        decreases current@.len(),
    {
        proof {
            broadcast use group_settle;

            git_root_unfolds(seen@, current@);
        }
        match seen.exists_at(&current.child(GIT_ENTRY)) {
            Progress::Done(true) => return Progress::Done(Some(current)),
            Progress::Done(false) => {},
            Progress::Need(query) => return Progress::Need(query),
        }
        match current.parent() {
            Some(up) => {
                current = up;
            },
            None => return Progress::Done(None),
        }
    }
}

/// The paths that the output of `git worktree list --porcelain` names.
pub fn parse_worktree_list(output: &str) -> (paths: Vec<String>)
    ensures
        paths.deep_view() == listed_paths(output@),
{
    let found = split_lines(output);
    let ghost all = found.deep_view();
    let ghost f = |line: Seq<char>| listed_path(line);
    let mut paths: Vec<String> = Vec::new();
    let mut i: usize = 0;
    assert(paths.deep_view() =~= all.take(0).filter_map(f));
    while i < found.len()
        invariant
            i <= found@.len(),
            all == found.deep_view(),
            f == (|line: Seq<char>| listed_path(line)),
            paths.deep_view() == all.take(i as int).filter_map(f),
        decreases found.len() - i,
    {
        let ghost before = paths.deep_view();
        proof {
            all.lemma_filter_map_take_succ(f, i as int);
            assert(all[i as int] == found[i as int]@);
        }
        match without_prefix(found[i].as_str(), WORKTREE_PREFIX) {
            Some(rest) => {
                let path = trimmed(rest.as_str());
                assert(f(all[i as int]) == Some(path@));
                paths.push(path);
                assert(paths.deep_view() =~= before + seq![path@]);
            },
            None => {
                assert(f(all[i as int]) == None::<Seq<char>>);
                assert(paths.deep_view() =~= before + Seq::empty());
            },
        }
        i = i + 1;
    }
    assert(all.take(i as int) =~= all);
    paths
}

fn existing_directories(seen: &Observations, texts: &Vec<String>) -> (found: Progress<
    Vec<HostPath>,
>)
    ensures
        found@ == settle(
            seen@,
            each_asked(texts.deep_view(), directory_named_asked(seen@)),
            texts.deep_view().filter_map(directory_named(seen@)),
        ),
{
    let ghost all = texts.deep_view();
    let ghost asked = directory_named_asked(seen@);
    let ghost f = directory_named(seen@);
    let mut found: Vec<HostPath> = Vec::new();
    let mut i: usize = 0;
    assert(all.skip(0) =~= all);
    assert(found.deep_view() =~= all.take(0).filter_map(f));
    while i < texts.len()
        invariant
            i <= texts@.len(),
            all == texts.deep_view(),
            asked == directory_named_asked(seen@),
            f == directory_named(seen@),
            first_unseen(seen@, each_asked(all, asked)) == first_unseen(
                seen@,
                each_asked(all.skip(i as int), asked),
            ),
            found.deep_view() == all.take(i as int).filter_map(f),
        decreases texts.len() - i,
    {
        broadcast use group_settle;

        let ghost before = found.deep_view();
        proof {
            each_asked_unfolds(seen@, all, i as int, asked);
            all.lemma_filter_map_take_succ(f, i as int);
            assert(all[i as int] == texts[i as int]@);
        }
        let path = match seen.resolve(&HostPath::empty(), texts[i].as_str()) {
            Progress::Done(path) => path,
            Progress::Need(query) => return Progress::Need(query),
        };
        match seen.is_dir(&path) {
            Progress::Done(true) => {
                assert(f(all[i as int]) == Some(path@));
                found.push(path);
                assert(found.deep_view() =~= before + seq![path@]);
            },
            Progress::Done(false) => {
                assert(f(all[i as int]) == None::<PathModel>);
                assert(found.deep_view() =~= before + Seq::empty());
            },
            Progress::Need(query) => return Progress::Need(query),
        }
        i = i + 1;
    }
    proof {
        broadcast use group_settle;

        assert(all.take(i as int) =~= all);
        assert(all.skip(i as int) =~= Seq::empty());
    }
    Progress::Done(found)
}

fn list_worktrees(seen: &Observations, root: &HostPath) -> (found: Progress<Vec<HostPath>>)
    ensures
        found@ == settle(
            seen@,
            listed_worktrees_asked(seen@, root@),
            listed_worktrees(seen@, root@),
        ),
{
    broadcast use group_settle;

    match seen.worktrees(root) {
        Progress::Done(Some(output)) => {
            assert(output.deep_view() =~= output@);
            let text = read_text(output);
            let texts = parse_worktree_list(text.as_str());
            existing_directories(seen, &texts)
        },
        Progress::Done(None) => {
            let found: Vec<HostPath> = Vec::new();
            assert(found.deep_view() =~= Seq::empty());
            Progress::Done(found)
        },
        Progress::Need(query) => Progress::Need(query),
    }
}

/// What the first line of a `.git` file that starts with `gitdir:` says.
pub fn parse_git_file(text: &str) -> (dir: Option<String>)
    ensures
        dir.deep_view() == gitdir_in(lines(text@)),
{
    let found = split_lines(text);
    let ghost all = found.deep_view();
    let mut i: usize = 0;
    assert(all.skip(0) =~= all);
    while i < found.len()
        invariant
            i <= found@.len(),
            all == found.deep_view(),
            all == lines(text@),
            gitdir_in(all) == gitdir_in(all.skip(i as int)),
        decreases found.len() - i,
    {
        assert(all.skip(i as int)[0] == found[i as int]@);
        assert(all.skip(i as int).drop_first() =~= all.skip(i + 1));
        match without_prefix(found[i].as_str(), GITDIR_PREFIX) {
            Some(rest) => return Some(trimmed(rest.as_str())),
            None => {},
        }
        i = i + 1;
    }
    None
}

fn two_levels_up(path: &HostPath) -> (up: HostPath)
    ensures
        up@ == two_up(path@),
{
    match path.parent() {
        Some(up) => match up.parent() {
            Some(upper) => upper,
            None => path.clone(),
        },
        None => path.clone(),
    }
}

fn find_shared_git_dir(seen: &Observations, git_dir: &HostPath) -> (found: Progress<HostPath>)
    ensures
        found@ == settle(
            seen@,
            shared_git_dir_asked(seen@, git_dir@),
            shared_git_dir(seen@, git_dir@),
        ),
{
    broadcast use group_settle;

    let text = match seen.content(&git_dir.child(COMMONDIR_FILE)) {
        Progress::Done(Some(text)) => text,
        Progress::Done(None) => return Progress::Done(two_levels_up(git_dir)),
        Progress::Need(query) => return Progress::Need(query),
    };
    let joined = match seen.resolve(git_dir, trimmed(text.as_str()).as_str()) {
        Progress::Done(path) => path,
        Progress::Need(query) => return Progress::Need(query),
    };
    if joined.file_name().is_some() {
        return Progress::Done(joined);
    }
    match seen.canonical(&joined) {
        Progress::Done(Some(place)) => Progress::Done(place.clone()),
        Progress::Done(None) => Progress::Done(joined),
        Progress::Need(query) => Progress::Need(query),
    }
}

fn find_common_git_dir(seen: &Observations, root: &HostPath) -> (found: Progress<
    Option<HostPath>,
>)
    ensures
        found@ == settle(
            seen@,
            common_git_dir_asked(seen@, root@),
            common_git_dir(seen@, root@),
        ),
{
    broadcast use group_settle;

    let git = root.child(GIT_ENTRY);
    match seen.is_file(&git) {
        Progress::Done(true) => {},
        Progress::Done(false) => return match seen.is_dir(&git) {
            Progress::Done(true) => Progress::Done(Some(git)),
            Progress::Done(false) => Progress::Done(None),
            Progress::Need(query) => Progress::Need(query),
        },
        Progress::Need(query) => return Progress::Need(query),
    }
    let text = match seen.content(&git) {
        Progress::Done(Some(text)) => text,
        Progress::Done(None) => return Progress::Done(None),
        Progress::Need(query) => return Progress::Need(query),
    };
    let dir = match parse_git_file(text.as_str()) {
        Some(dir) => dir,
        None => return Progress::Done(None),
    };
    let git_dir = match seen.resolve(&HostPath::empty(), dir.as_str()) {
        Progress::Done(path) => path,
        Progress::Need(query) => return Progress::Need(query),
    };
    match find_shared_git_dir(seen, &git_dir) {
        Progress::Done(path) => Progress::Done(Some(path)),
        Progress::Need(query) => Progress::Need(query),
    }
}

fn find_linked_worktree(seen: &Observations, directory: &HostPath, name: &Name) -> (found: Progress<
    Option<HostPath>,
>)
    ensures
        found@ == settle(
            seen@,
            linked_worktree_asked(seen@, directory@)(name@),
            linked_worktree(seen@, directory@)(name@),
        ),
{
    broadcast use group_settle;

    let text = match seen.content(&directory.entry(name).child(GITDIR_FILE)) {
        Progress::Done(Some(text)) => text,
        Progress::Done(None) => return Progress::Done(None),
        Progress::Need(query) => return Progress::Need(query),
    };
    let git = match seen.resolve(&HostPath::empty(), trimmed(text.as_str()).as_str()) {
        Progress::Done(path) => path,
        Progress::Need(query) => return Progress::Need(query),
    };
    match git.parent() {
        Some(root) => match seen.is_dir(&root) {
            Progress::Done(true) => Progress::Done(Some(root)),
            Progress::Done(false) => Progress::Done(None),
            Progress::Need(query) => Progress::Need(query),
        },
        None => Progress::Done(None),
    }
}

fn find_linked_worktrees(
    seen: &Observations,
    directory: &HostPath,
    names: &Vec<Name>,
) -> (found: Progress<Vec<HostPath>>)
    ensures
        found@ == settle(
            seen@,
            each_asked(names.deep_view(), linked_worktree_asked(seen@, directory@)),
            names.deep_view().filter_map(linked_worktree(seen@, directory@)),
        ),
{
    let ghost all = names.deep_view();
    let ghost asked = linked_worktree_asked(seen@, directory@);
    let ghost f = linked_worktree(seen@, directory@);
    let mut found: Vec<HostPath> = Vec::new();
    let mut i: usize = 0;
    assert(all.skip(0) =~= all);
    assert(found.deep_view() =~= all.take(0).filter_map(f));
    while i < names.len()
        invariant
            i <= names@.len(),
            all == names.deep_view(),
            asked == linked_worktree_asked(seen@, directory@),
            f == linked_worktree(seen@, directory@),
            first_unseen(seen@, each_asked(all, asked)) == first_unseen(
                seen@,
                each_asked(all.skip(i as int), asked),
            ),
            found.deep_view() == all.take(i as int).filter_map(f),
        decreases names.len() - i,
    {
        let ghost before = found.deep_view();
        proof {
            each_asked_unfolds(seen@, all, i as int, asked);
            all.lemma_filter_map_take_succ(f, i as int);
            assert(all[i as int] == names[i as int]@);
        }
        match find_linked_worktree(seen, directory, &names[i]) {
            Progress::Done(Some(path)) => {
                found.push(path);
                assert(found.deep_view() =~= before + seq![path@]);
            },
            Progress::Done(None) => {
                assert(found.deep_view() =~= before + Seq::empty());
            },
            Progress::Need(query) => return Progress::Need(query),
        }
        i = i + 1;
    }
    proof {
        broadcast use group_settle;

        assert(all.take(i as int) =~= all);
        assert(all.skip(i as int) =~= Seq::empty());
    }
    Progress::Done(found)
}

/// Discovers the worktrees from the files of the repository alone.
pub fn find_worktrees_from_filesystem(seen: &Observations, git_root: &HostPath) -> (found: Progress<
    Vec<HostPath>,
>)
    ensures
        found@ == settle(
            seen@,
            recorded_worktrees_asked(seen@, git_root@),
            recorded_worktrees(seen@, git_root@),
        ),
{
    broadcast use group_settle;

    let mut found: Vec<HostPath> = Vec::new();
    assert(found.deep_view() =~= Seq::empty());
    let git_dir = match find_common_git_dir(seen, git_root) {
        Progress::Done(Some(path)) => path,
        Progress::Done(None) => return Progress::Done(found),
        Progress::Need(query) => return Progress::Need(query),
    };
    if let Some(main) = git_dir.parent() {
        match seen.is_dir(&main) {
            Progress::Done(true) => {
                found.push(main);
            },
            Progress::Done(false) => {},
            Progress::Need(query) => return Progress::Need(query),
        }
    }
    assert(found.deep_view() =~= main_worktree(seen@, git_dir@));
    let directory = git_dir.child(WORKTREES_DIR);
    let names = match seen.entries(&directory) {
        Progress::Done(Some(names)) => names,
        Progress::Done(None) => {
            assert(found.deep_view() =~= found.deep_view() + linked_worktrees(seen@, directory@));
            return Progress::Done(found);
        },
        Progress::Need(query) => return Progress::Need(query),
    };
    match find_linked_worktrees(seen, &directory, names) {
        Progress::Done(mut linked) => {
            let ghost first = found.deep_view();
            let ghost second = linked.deep_view();
            found.append(&mut linked);
            assert(found.deep_view() =~= first + second);
            Progress::Done(found)
        },
        Progress::Need(query) => Progress::Need(query),
    }
}

fn keep_others(
    seen: &Observations,
    windows: bool,
    root: &HostPath,
    all: &Vec<HostPath>,
) -> (found: Progress<Vec<HostPath>>)
    ensures
        found@ == settle(
            seen@,
            each_asked(all.deep_view(), elsewhere_asked(seen@, windows, root@)),
            all.deep_view().filter(is_elsewhere(seen@, windows, root@)),
        ),
{
    let ghost paths = all.deep_view();
    let ghost asked = elsewhere_asked(seen@, windows, root@);
    let ghost keep = is_elsewhere(seen@, windows, root@);
    let mut found: Vec<HostPath> = Vec::new();
    let mut i: usize = 0;
    assert(paths.skip(0) =~= paths);
    proof {
        reveal(Seq::filter);
        assert(found.deep_view() =~= paths.take(0).filter(keep));
    }
    while i < all.len()
        invariant
            i <= all@.len(),
            paths == all.deep_view(),
            asked == elsewhere_asked(seen@, windows, root@),
            keep == is_elsewhere(seen@, windows, root@),
            first_unseen(seen@, each_asked(paths, asked)) == first_unseen(
                seen@,
                each_asked(paths.skip(i as int), asked),
            ),
            found.deep_view() == paths.take(i as int).filter(keep),
        decreases all.len() - i,
    {
        let ghost before = found.deep_view();
        proof {
            each_asked_unfolds(seen@, paths, i as int, asked);
            paths.take(i as int).lemma_filter_push(paths[i as int], keep);
            assert(paths.take(i + 1) =~= paths.take(i as int).push(paths[i as int]));
            assert(paths[i as int] == all[i as int]@);
        }
        match is_same_path(seen, windows, &all[i], root) {
            Progress::Done(true) => {},
            Progress::Done(false) => {
                let path = all[i].clone();
                found.push(path);
                assert(found.deep_view() =~= before.push(path@));
            },
            Progress::Need(query) => return Progress::Need(query),
        }
        i = i + 1;
    }
    proof {
        broadcast use group_settle;

        assert(paths.take(i as int) =~= paths);
        assert(paths.skip(i as int) =~= Seq::empty());
    }
    Progress::Done(found)
}

/// Discovers the worktrees of the repository other than the one at `current_git_root`.
pub fn find_sibling_worktrees(
    seen: &Observations,
    windows: bool,
    current_git_root: &HostPath,
) -> (found: Progress<Vec<HostPath>>)
    ensures
        found@ == settle(
            seen@,
            sibling_worktrees_asked(seen@, windows, current_git_root@),
            sibling_worktrees(seen@, windows, current_git_root@),
        ),
{
    broadcast use group_settle;

    let mut all = match list_worktrees(seen, current_git_root) {
        Progress::Done(listed) => listed,
        Progress::Need(query) => return Progress::Need(query),
    };
    if all.len() == 0 {
        match find_worktrees_from_filesystem(seen, current_git_root) {
            Progress::Done(recorded) => {
                all = recorded;
            },
            Progress::Need(query) => return Progress::Need(query),
        }
    }
    keep_others(seen, windows, current_git_root, &all)
}

/// Without Git, a linked worktree leads to the main one: where its `.git` file names a directory
/// whose `commondir` names the `.git` of the main worktree, or ends in dots that the host resolves
/// to that, the main worktree is the first found.
pub proof fn a_linked_worktree_leads_to_the_main_one(
    world: World,
    root: PathModel,
    text: Seq<char>,
    dir: Seq<char>,
    common: Seq<char>,
    main: PathModel,
)
    requires
        is_file(world, child(root, GIT_ENTRY@)),
        content(world, child(root, GIT_ENTRY@)) == Some(text),
        gitdir_in(lines(text)) == Some(dir),
        content(world, child(path_of(world, dir), COMMONDIR_FILE@)) == Some(common),
        ({
            let joined = resolve(world, path_of(world, dir), trim(common));
            ||| joined == child(main, GIT_ENTRY@)
            ||| file_name(joined) is None && canonical(world, joined) == Some(
                child(main, GIT_ENTRY@),
            )
        }),
        is_dir(world, main),
    ensures
        recorded_worktrees(world, root).len() > 0,
        recorded_worktrees(world, root)[0] == main,
{
    assert(child(main, GIT_ENTRY@).drop_last() =~= main);
}

proof fn worktrees_are_directories(world: World, root: PathModel, path: PathModel)
    requires
        all_worktrees(world, root).contains(path),
    ensures
        is_dir(world, path),
{
    if listed_worktrees(world, root).len() > 0 {
        let texts = listed_paths(text_of(worktrees(world, root)->0));
        texts.lemma_filter_map_contains(directory_named(world), path);
    } else {
        let git_dir = common_git_dir(world, root)->0;
        let directory = child(git_dir, WORKTREES_DIR@);
        let i = choose|i: int|
            0 <= i < recorded_worktrees(world, root).len() && recorded_worktrees(world, root)[i]
                == path;
        let first = main_worktree(world, git_dir).len();
        if i >= first {
            assert(linked_worktrees(world, directory)[i - first] == path);
            let names = entries(world, directory)->0;
            names.lemma_filter_map_contains(linked_worktree(world, directory), path);
        }
    }
}

/// Whether Git or the files name them, the worktrees that are searched are directories, are
/// worktrees of the repository and are other places than the one that is built in.
pub proof fn a_worktree_is_not_its_own_sibling(
    world: World,
    windows: bool,
    root: PathModel,
    path: PathModel,
)
    requires
        sibling_worktrees(world, windows, root).contains(path),
    ensures
        all_worktrees(world, root).contains(path),
        is_dir(world, path),
        !is_same(world, windows, path, root),
{
    let all = all_worktrees(world, root);
    let keep = is_elsewhere(world, windows, root);
    let i = choose|i: int| 0 <= i < all.filter(keep).len() && all.filter(keep)[i] == path;
    all.lemma_filter_pred(keep, i);
    all.lemma_filter_contains_rev(keep, path);
    worktrees_are_directories(world, root, path);
}

/// No worktree of the repository is left out but the one that is built in.
pub proof fn every_other_worktree_is_a_sibling(
    world: World,
    windows: bool,
    root: PathModel,
    path: PathModel,
)
    requires
        all_worktrees(world, root).contains(path),
        !is_same(world, windows, path, root),
    ensures
        sibling_worktrees(world, windows, root).contains(path),
{
    let all = all_worktrees(world, root);
    let i = choose|i: int| 0 <= i < all.len() && all[i] == path;
    all.lemma_filter_contains(is_elsewhere(world, windows, root), i);
}

} // verus!
