//! The search for a cached build in one build root.
use vstd::prelude::*;

use crate::cache::{build_of_package, cache_asked, is_valid_cache, package_of, package_of_build};
use crate::cache::{CacheModel, CachedBuild};
use crate::environment::{os_name, BuildEnv, EnvModel};
use crate::observe::{first_found, first_found_asked, first_found_unfolds, group_settle};
use crate::observe::first_found_comes_from_an_item;
use crate::observe::{also, canonical, display, entries, is_dir, settle};
use crate::observe::{Observations, Progress, QueryModel, World};
use crate::path::{child, entry, file_name, parent};
use crate::path::{HostPath, Name, NameModel, PathModel};
use crate::text::{backslashed, case_is_ignored_both_ways, same_ignoring_case};
use crate::text::{equal_ignoring_case, equal_ignoring_case_and_slashes, has_prefix};

verus! {

/// The directory of the package in a build root, where it holds one directory for each hash.
pub const PACKAGE_NAME: &'static str = "ktx2-rw";

/// How a package directory starts in a build root, where the hash is part of its name.
pub const PACKAGE_PREFIX: &'static str = "ktx2-rw-";

/// Whether the host resolves both paths to one.
pub open spec fn is_same_resolved(world: World, windows: bool, a: PathModel, b: PathModel) -> bool {
    &&& canonical(world, a) matches Some(x)
    &&& canonical(world, b) matches Some(y)
    &&& x == y || windows && same_ignoring_case(display(world, x), display(world, y))
}

/// Whether both paths mean the same place: they are equal, or lead to the same path once
/// resolved. On Windows neither the case of a letter nor the kind of slash makes a difference.
pub open spec fn is_same(world: World, windows: bool, a: PathModel, b: PathModel) -> bool {
    ||| a == b
    ||| is_same_resolved(world, windows, a, b)
    ||| windows && same_ignoring_case(backslashed(display(world, a)), backslashed(display(world, b)))
}

pub open spec fn same_asked(world: World, windows: bool, a: PathModel, b: PathModel) -> Seq<
    QueryModel,
> {
    also(
        a != b,
        seq![QueryModel::Canonical(a)] + (seq![QueryModel::Canonical(b)] + (also(
            windows && canonical(world, a) is Some && canonical(world, b) is Some && canonical(
                world,
                a,
            ) != canonical(world, b),
            seq![QueryModel::Display(canonical(world, a)->0)] + seq![
                QueryModel::Display(canonical(world, b)->0),
            ],
        ) + also(
            windows && !is_same_resolved(world, windows, a, b),
            seq![QueryModel::Display(a)] + seq![QueryModel::Display(b)],
        ))),
    )
}

/// Whether the package directory is another one than that of the running build.
pub open spec fn is_other_package(
    world: World,
    windows: bool,
    package: PathModel,
    out_dir: PathModel,
) -> bool {
    parent(out_dir) matches Some(own) && !is_same(world, windows, package, own)
}

pub open spec fn other_package_asked(
    world: World,
    windows: bool,
    package: PathModel,
    out_dir: PathModel,
) -> Seq<QueryModel> {
    match parent(out_dir) {
        Some(own) => same_asked(world, windows, package, own),
        None => Seq::empty(),
    }
}

/// Whether the package directory holds a valid build of another package.
pub open spec fn is_reusable(
    world: World,
    env: EnvModel,
    package: PathModel,
    out_dir: PathModel,
) -> bool {
    &&& is_dir(world, package)
    &&& is_other_package(world, env.windows, package, out_dir)
    &&& is_valid_cache(world, os_name(env), build_of_package(package))
}

pub open spec fn reusable_asked(
    world: World,
    env: EnvModel,
    package: PathModel,
    out_dir: PathModel,
) -> Seq<QueryModel> {
    seq![QueryModel::IsDir(package)] + also(
        is_dir(world, package),
        other_package_asked(world, env.windows, package, out_dir) + also(
            is_other_package(world, env.windows, package, out_dir),
            cache_asked(world, os_name(env), build_of_package(package)),
        ),
    )
}

/// Whether a package directory of this package starts with the name and a hash.
pub open spec fn has_package_prefix(name: NameModel) -> bool {
    name matches NameModel::Text(text) && PACKAGE_PREFIX@.is_prefix_of(text)
}

/// Whether an entry may be a package directory at all: in a directory of the package, any; in
/// the build root, one that carries the package's name.
pub open spec fn is_eligible(name: NameModel, prefixed: bool) -> bool {
    prefixed ==> has_package_prefix(name)
}

/// The build to reuse in the entry of that name, as a function of the name.
pub open spec fn reusable_entry(
    world: World,
    env: EnvModel,
    directory: PathModel,
    prefixed: bool,
    out_dir: PathModel,
) -> spec_fn(NameModel) -> Option<CacheModel> {
    |name: NameModel|
        if is_eligible(name, prefixed) && is_reusable(world, env, entry(directory, name), out_dir) {
            Some(build_of_package(entry(directory, name)))
        } else {
            None
        }
}

pub open spec fn reusable_entry_asked(
    world: World,
    env: EnvModel,
    directory: PathModel,
    prefixed: bool,
    out_dir: PathModel,
) -> spec_fn(NameModel) -> Seq<QueryModel> {
    |name: NameModel|
        also(
            is_eligible(name, prefixed),
            reusable_asked(world, env, entry(directory, name), out_dir),
        )
}

/// The first build to reuse in a directory, if that can be listed.
pub open spec fn first_in_directory(
    world: World,
    env: EnvModel,
    directory: PathModel,
    prefixed: bool,
    out_dir: PathModel,
) -> Option<CacheModel> {
    match entries(world, directory) {
        Some(names) => first_found(
            names,
            reusable_entry(world, env, directory, prefixed, out_dir),
        ),
        None => None,
    }
}

pub open spec fn in_directory_asked(
    world: World,
    env: EnvModel,
    directory: PathModel,
    prefixed: bool,
    out_dir: PathModel,
) -> Seq<QueryModel> {
    seq![QueryModel::Entries(directory)] + match entries(world, directory) {
        Some(names) => first_found_asked(
            names,
            reusable_entry(world, env, directory, prefixed, out_dir),
            reusable_entry_asked(world, env, directory, prefixed, out_dir),
        ),
        None => Seq::empty(),
    }
}

/// The build to reuse in a build root: the first in the directory of the package, else the first
/// beside it.
pub open spec fn found_in_root(
    world: World,
    env: EnvModel,
    build_root: PathModel,
    out_dir: PathModel,
) -> Option<CacheModel> {
    if !is_dir(world, build_root) {
        None
    } else {
        match found_in_package_dir(world, env, child(build_root, PACKAGE_NAME@), out_dir) {
            Some(cache) => Some(cache),
            None => first_in_directory(world, env, build_root, true, out_dir),
        }
    }
}

pub open spec fn found_in_package_dir(
    world: World,
    env: EnvModel,
    package_dir: PathModel,
    out_dir: PathModel,
) -> Option<CacheModel> {
    if is_dir(world, package_dir) {
        first_in_directory(world, env, package_dir, false, out_dir)
    } else {
        None
    }
}

pub open spec fn package_dir_asked(
    world: World,
    env: EnvModel,
    package_dir: PathModel,
    out_dir: PathModel,
) -> Seq<QueryModel> {
    seq![QueryModel::IsDir(package_dir)] + also(
        is_dir(world, package_dir),
        in_directory_asked(world, env, package_dir, false, out_dir),
    )
}

pub open spec fn root_asked(
    world: World,
    env: EnvModel,
    build_root: PathModel,
    out_dir: PathModel,
) -> Seq<QueryModel> {
    let package_dir = child(build_root, PACKAGE_NAME@);
    seq![QueryModel::IsDir(build_root)] + also(
        is_dir(world, build_root),
        package_dir_asked(world, env, package_dir, out_dir) + also(
            found_in_package_dir(world, env, package_dir, out_dir) is None,
            in_directory_asked(world, env, build_root, true, out_dir),
        ),
    )
}

/// Whether both paths mean the same place.
pub fn is_same_path(seen: &Observations, windows: bool, p1: &HostPath, p2: &HostPath) -> (same:
    Progress<bool>)
    ensures
        same@ == settle(
            seen@,
            same_asked(seen@, windows, p1@, p2@),
            is_same(seen@, windows, p1@, p2@),
        ),
{
    broadcast use group_settle;

    if p1.same(p2) {
        return Progress::Done(true);
    }
    let c1 = match seen.canonical(p1) {
        Progress::Done(path) => path,
        Progress::Need(query) => return Progress::Need(query),
    };
    let c2 = match seen.canonical(p2) {
        Progress::Done(path) => path,
        Progress::Need(query) => return Progress::Need(query),
    };
    if let (Some(c1), Some(c2)) = (c1, c2) {
        if c1.same(c2) {
            return Progress::Done(true);
        }
        if windows {
            let s1 = match seen.display(c1) {
                Progress::Done(text) => text,
                Progress::Need(query) => return Progress::Need(query),
            };
            let s2 = match seen.display(c2) {
                Progress::Done(text) => text,
                Progress::Need(query) => return Progress::Need(query),
            };
            if equal_ignoring_case(s1.as_str(), s2.as_str()) {
                return Progress::Done(true);
            }
        }
    }
    if windows {
        let s1 = match seen.display(p1) {
            Progress::Done(text) => text,
            Progress::Need(query) => return Progress::Need(query),
        };
        let s2 = match seen.display(p2) {
            Progress::Done(text) => text,
            Progress::Need(query) => return Progress::Need(query),
        };
        if equal_ignoring_case_and_slashes(s1.as_str(), s2.as_str()) {
            return Progress::Done(true);
        }
    }
    Progress::Done(false)
}

/// Whether a package directory is another one than that of the running build.
pub fn is_candidate_package(
    seen: &Observations,
    windows: bool,
    candidate_path: &HostPath,
    current_out_dir: &HostPath,
) -> (candidate: Progress<bool>)
    ensures
        candidate@ == settle(
            seen@,
            other_package_asked(seen@, windows, candidate_path@, current_out_dir@),
            is_other_package(seen@, windows, candidate_path@, current_out_dir@),
        ),
{
    broadcast use group_settle;

    match current_out_dir.parent() {
        Some(own) => match is_same_path(seen, windows, candidate_path, &own) {
            Progress::Done(same) => Progress::Done(!same),
            Progress::Need(query) => Progress::Need(query),
        },
        None => Progress::Done(false),
    }
}

fn is_reusable_package(
    seen: &Observations,
    env: &BuildEnv,
    package: &HostPath,
    out_dir: &HostPath,
) -> (reusable: Progress<bool>)
    ensures
        reusable@ == settle(
            seen@,
            reusable_asked(seen@, env@, package@, out_dir@),
            is_reusable(seen@, env@, package@, out_dir@),
        ),
{
    broadcast use group_settle;

    match seen.is_dir(package) {
        Progress::Done(true) => {},
        other => return other,
    }
    match is_candidate_package(seen, env.windows, package, out_dir) {
        Progress::Done(true) => {},
        other => return other,
    }
    CachedBuild::from_package_dir(package).validate(seen, env.os_name().as_str())
}

fn starts_like_package(name: &Name) -> (does: bool)
    ensures
        does == has_package_prefix(name@),
{
    match name {
        Name::Text(text) => has_prefix(text.as_str(), PACKAGE_PREFIX),
        Name::Raw(_) => false,
    }
}

fn reuse_entry(
    seen: &Observations,
    env: &BuildEnv,
    directory: &HostPath,
    name: &Name,
    prefixed: bool,
    out_dir: &HostPath,
) -> (found: Progress<Option<CachedBuild>>)
    ensures
        found@ == settle(
            seen@,
            reusable_entry_asked(seen@, env@, directory@, prefixed, out_dir@)(name@),
            reusable_entry(seen@, env@, directory@, prefixed, out_dir@)(name@),
        ),
{
    broadcast use group_settle;

    if prefixed && !starts_like_package(name) {
        return Progress::Done(None);
    }
    let package = directory.entry(name);
    match is_reusable_package(seen, env, &package, out_dir) {
        Progress::Done(true) => Progress::Done(Some(CachedBuild::from_package_dir(&package))),
        Progress::Done(false) => Progress::Done(None),
        Progress::Need(query) => Progress::Need(query),
    }
}

fn search_entries(
    seen: &Observations,
    env: &BuildEnv,
    directory: &HostPath,
    names: &Vec<Name>,
    prefixed: bool,
    out_dir: &HostPath,
) -> (found: Progress<Option<CachedBuild>>)
    ensures
        found@ == settle(
            seen@,
            first_found_asked(
                names.deep_view(),
                reusable_entry(seen@, env@, directory@, prefixed, out_dir@),
                reusable_entry_asked(seen@, env@, directory@, prefixed, out_dir@),
            ),
            first_found(
                names.deep_view(),
                reusable_entry(seen@, env@, directory@, prefixed, out_dir@),
            ),
        ),
{
    let ghost all = names.deep_view();
    let ghost find = reusable_entry(seen@, env@, directory@, prefixed, out_dir@);
    let ghost asked = reusable_entry_asked(seen@, env@, directory@, prefixed, out_dir@);
    let mut i: usize = 0;
    assert(all.skip(0) =~= all);
    while i < names.len()
        invariant
            i <= names@.len(),
            all == names.deep_view(),
            find == reusable_entry(seen@, env@, directory@, prefixed, out_dir@),
            asked == reusable_entry_asked(seen@, env@, directory@, prefixed, out_dir@),
            settle(seen@, first_found_asked(all, find, asked), first_found(all, find)) == settle(
                seen@,
                first_found_asked(all.skip(i as int), find, asked),
                first_found(all.skip(i as int), find),
            ),
        decreases names.len() - i,
    {
        proof {
            first_found_unfolds(seen@, all, i as int, find, asked);
        }
        match reuse_entry(seen, env, directory, &names[i], prefixed, out_dir) {
            Progress::Done(None) => {},
            other => return other,
        }
        i = i + 1;
    }
    proof {
        broadcast use group_settle;

        assert(all.skip(i as int) =~= Seq::empty());
    }
    Progress::Done(None)
}

fn search_directory(
    seen: &Observations,
    env: &BuildEnv,
    directory: &HostPath,
    prefixed: bool,
    out_dir: &HostPath,
) -> (found: Progress<Option<CachedBuild>>)
    ensures
        found@ == settle(
            seen@,
            in_directory_asked(seen@, env@, directory@, prefixed, out_dir@),
            first_in_directory(seen@, env@, directory@, prefixed, out_dir@),
        ),
{
    broadcast use group_settle;

    match seen.entries(directory) {
        Progress::Done(Some(names)) => search_entries(
            seen,
            env,
            directory,
            names,
            prefixed,
            out_dir,
        ),
        Progress::Done(None) => Progress::Done(None),
        Progress::Need(query) => Progress::Need(query),
    }
}

/// Searches a build root for a build to reuse.
pub fn search_cache_in_directory(
    seen: &Observations,
    env: &BuildEnv,
    build_root: &HostPath,
    current_out_dir: &HostPath,
) -> (found: Progress<Option<CachedBuild>>)
    ensures
        found@ == settle(
            seen@,
            root_asked(seen@, env@, build_root@, current_out_dir@),
            found_in_root(seen@, env@, build_root@, current_out_dir@),
        ),
{
    broadcast use group_settle;

    match seen.is_dir(build_root) {
        Progress::Done(true) => {},
        Progress::Done(false) => return Progress::Done(None),
        Progress::Need(query) => return Progress::Need(query),
    }
    let package_dir = build_root.child(PACKAGE_NAME);
    match seen.is_dir(&package_dir) {
        Progress::Done(true) => match search_directory(
            seen,
            env,
            &package_dir,
            false,
            current_out_dir,
        ) {
            Progress::Done(None) => {},
            other => return other,
        },
        Progress::Done(false) => {},
        Progress::Need(query) => return Progress::Need(query),
    }
    search_directory(seen, env, build_root, true, current_out_dir)
}

/// Whether the package directory is one of this package in the build root: in the directory of the
/// package, or beside it under a name that starts with the package.
pub open spec fn is_package_in(package: PathModel, build_root: PathModel) -> bool {
    &&& file_name(package) is Some
    &&& parent(package) matches Some(up)
    &&& up == child(build_root, PACKAGE_NAME@) || up == build_root && has_package_prefix(
        file_name(package)->0,
    )
}

proof fn found_in_directory_is_reusable(
    world: World,
    env: EnvModel,
    directory: PathModel,
    prefixed: bool,
    out_dir: PathModel,
)
    ensures
        first_in_directory(world, env, directory, prefixed, out_dir) matches Some(cache) ==> {
            let package = package_of(cache);
            &&& cache == build_of_package(package)
            &&& file_name(package) is Some
            &&& parent(package) == Some(directory)
            &&& prefixed ==> has_package_prefix(file_name(package)->0)
            &&& is_reusable(world, env, package, out_dir)
        },
{
    if let Some(cache) = first_in_directory(world, env, directory, prefixed, out_dir) {
        let names = entries(world, directory)->0;
        let find = reusable_entry(world, env, directory, prefixed, out_dir);
        first_found_comes_from_an_item(names, find);
        let i = choose|i: int| 0 <= i < names.len() && #[trigger] find(names[i]) == Some(cache);
        let package = entry(directory, names[i]);
        package_of_build(package);
        assert(package.drop_last() =~= directory);
    }
}

/// What a search of a build root finds is a valid build in a directory of this package in that
/// root, and never the directory of the running build.
pub proof fn a_found_build_is_reusable(
    world: World,
    env: EnvModel,
    build_root: PathModel,
    out_dir: PathModel,
)
    ensures
        found_in_root(world, env, build_root, out_dir) matches Some(cache) ==> {
            &&& cache == build_of_package(package_of(cache))
            &&& is_package_in(package_of(cache), build_root)
            &&& is_reusable(world, env, package_of(cache), out_dir)
        },
{
    found_in_directory_is_reusable(world, env, child(build_root, PACKAGE_NAME@), false, out_dir);
    found_in_directory_is_reusable(world, env, build_root, true, out_dir);
}

/// A search of a build root that finds nothing has missed nothing: no entry that could be a
/// directory of this package holds a valid build of another package directory.
pub proof fn nothing_reusable_is_missed(
    world: World,
    env: EnvModel,
    build_root: PathModel,
    out_dir: PathModel,
    directory: PathModel,
    name: NameModel,
)
    requires
        found_in_root(world, env, build_root, out_dir) is None,
        is_dir(world, build_root),
        directory == child(build_root, PACKAGE_NAME@) && is_dir(world, directory) || directory
            == build_root && has_package_prefix(name),
        entries(world, directory) matches Some(names) && names.contains(name),
    ensures
        !is_reusable(world, env, entry(directory, name), out_dir),
{
    let prefixed = directory == build_root;
    assert(child(build_root, PACKAGE_NAME@).len() == build_root.len() + 1);
    let names = entries(world, directory)->0;
    let find = reusable_entry(world, env, directory, prefixed, out_dir);
    first_found_comes_from_an_item(names, find);
    let i = choose|i: int| 0 <= i < names.len() && names[i] == name;
    assert(find(names[i]) is None);
}

/// Every path means the same place as itself, and the order of two paths makes no difference.
pub proof fn sameness_is_reflexive_and_symmetric(
    world: World,
    windows: bool,
    a: PathModel,
    b: PathModel,
)
    ensures
        is_same(world, windows, a, a),
        is_same(world, windows, a, b) == is_same(world, windows, b, a),
{
    case_is_ignored_both_ways(backslashed(display(world, a)), backslashed(display(world, b)));
    if let (Some(x), Some(y)) = (canonical(world, a), canonical(world, b)) {
        case_is_ignored_both_ways(display(world, x), display(world, y));
    }
}

/// On Windows, paths whose texts differ only in the case of letters and the kind of slashes mean
/// the same place.
pub proof fn case_and_slashes_make_no_difference_on_windows(
    world: World,
    a: PathModel,
    b: PathModel,
)
    requires
        same_ignoring_case(backslashed(display(world, a)), backslashed(display(world, b))),
    ensures
        is_same(world, true, a, b),
{
}

} // verus!
