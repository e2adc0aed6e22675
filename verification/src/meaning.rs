//! What a build to reuse is, said of the answers of the host alone.
use vstd::prelude::*;

use crate::cache::{build_in, build_of_package, has_library, is_valid_cache, is_valid_file};
use crate::cache::{CacheModel, KTX_SOFTWARE_VERSION, KTX_SOURCE_PREFIX};
use crate::environment::EnvModel;
use crate::observe::{display, entries, first_found_comes_from_an_item, is_dir};
use crate::observe::{AnswerModel, QueryModel, World};
use crate::path::{ComponentModel, NameModel, PathModel};
use crate::path::{child, entry, parent};
use crate::search::{found_in_package_dir, found_in_root, is_other_package, is_reusable, is_same};
use crate::search::{first_in_directory, has_package_prefix, is_eligible, reusable_entry};
use crate::search::PACKAGE_NAME;
use crate::text::{a_prefix_and_the_rest_are_the_text, backslashed, lowered};
use crate::text::{ignoring_case_is_comparing_in_lower_case, same_ignoring_case, strip_prefix};

verus! {

/// Whether the host said yes.
pub open spec fn yes(world: World, query: QueryModel) -> bool {
    world[query] == AnswerModel::Flag(true)
}

/// The path with one more name.
pub open spec fn at(path: PathModel, name: Seq<char>) -> PathModel {
    path.push(ComponentModel::Normal(NameModel::Text(name)))
}

/// A file that is there, holds something and can be opened.
pub open spec fn usable(world: World, path: PathModel) -> bool {
    &&& yes(world, QueryModel::IsFile(path))
    &&& world[QueryModel::Size(path)] matches AnswerModel::Size(Some(bytes)) && bytes != 0
    &&& yes(world, QueryModel::CanOpen(path))
}

/// A directory that is there and lists something.
pub open spec fn filled(world: World, path: PathModel) -> bool {
    &&& yes(world, QueryModel::IsDir(path))
    &&& world[QueryModel::Entries(path)] matches AnswerModel::Names(Some(names)) && names.len() != 0
}

/// Whether the file, or for a framework the directory, of that name can be linked on the system:
/// an archive on every one, the other kinds each on their own.
pub open spec fn links(world: World, os: Seq<char>, lib_dir: PathModel, name: Seq<char>) -> bool {
    let windows = os == "windows"@;
    let apple = os == "macos"@ || os == "ios"@;
    ||| name == "libktx.a"@ && usable(world, at(lib_dir, name))
    ||| windows && name == "ktx.lib"@ && usable(world, at(lib_dir, name))
    ||| apple && name == "libktx.dylib"@ && usable(world, at(lib_dir, name))
    ||| apple && name == "ktx.framework"@ && (usable(world, at(lib_dir, name)) || filled(
        world,
        at(lib_dir, name),
    ))
    ||| !windows && !apple && name == "libktx.so"@ && usable(world, at(lib_dir, name))
}

/// A library directory serves a system exactly where it holds something that can be linked there.
/// An archive serves every system; nothing but the name of the system, the few names of libraries
/// and the state of those files matters.
pub proof fn a_library_serves_where_it_can_be_linked(
    world: World,
    os: Seq<char>,
    lib_dir: PathModel,
)
    ensures
        has_library(world, os, lib_dir) <==> exists|name: Seq<char>| #[trigger]
            links(world, os, lib_dir, name),
        usable(world, at(lib_dir, "libktx.a"@)) ==> has_library(world, os, lib_dir),
        os != "windows"@ && os != "macos"@ && os != "ios"@ ==> (has_library(world, os, lib_dir) <==>
            usable(world, at(lib_dir, "libktx.a"@)) || usable(world, at(lib_dir, "libktx.so"@))),
        os == "windows"@ ==> (has_library(world, os, lib_dir) <==> usable(
            world,
            at(lib_dir, "libktx.a"@),
        ) || usable(world, at(lib_dir, "ktx.lib"@))),
        os == "macos"@ || os == "ios"@ ==> (has_library(world, os, lib_dir) <==> usable(
            world,
            at(lib_dir, "libktx.a"@),
        ) || usable(world, at(lib_dir, "libktx.dylib"@)) || usable(
            world,
            at(lib_dir, "ktx.framework"@),
        ) || filled(world, at(lib_dir, "ktx.framework"@))),
{
    reveal_strlit("windows");
    reveal_strlit("macos");
    reveal_strlit("ios");
    assert("windows"@.len() != "macos"@.len() && "windows"@.len() != "ios"@.len());
    assert forall|path: PathModel| #[trigger]
        is_valid_file(world, path) <==> usable(world, path) by {
        a_valid_file_is_a_usable_one(world, path);
    }
    if has_library(world, os, lib_dir) {
        let found = links(world, os, lib_dir, "libktx.a"@) || links(world, os, lib_dir, "ktx.lib"@)
            || links(world, os, lib_dir, "libktx.dylib"@) || links(
            world,
            os,
            lib_dir,
            "ktx.framework"@,
        ) || links(world, os, lib_dir, "libktx.so"@);
        assert(found);
    }
}

/// A file counts exactly where it is there, holds something and can be opened.
pub proof fn a_valid_file_is_a_usable_one(world: World, path: PathModel)
    ensures
        is_valid_file(world, path) <==> usable(world, path),
{
}

/// Whether these three places hold a whole build for the system.
pub open spec fn is_whole_at(
    world: World,
    os: Seq<char>,
    build_dir: PathModel,
    source_dir: PathModel,
    bindings: PathModel,
) -> bool {
    &&& yes(world, QueryModel::IsDir(build_dir))
    &&& yes(world, QueryModel::IsDir(at(build_dir, "lib"@)))
    &&& exists|name: Seq<char>| #[trigger] links(world, os, at(build_dir, "lib"@), name)
    &&& yes(world, QueryModel::IsDir(source_dir))
    &&& yes(world, QueryModel::IsFile(at(at(source_dir, "include"@), "ktx.h"@)))
    &&& usable(world, bindings)
}

/// Whether an output directory holds a whole build for the system.
pub open spec fn is_whole(world: World, os: Seq<char>, output_dir: PathModel) -> bool {
    is_whole_at(
        world,
        os,
        at(output_dir, "KTX-Software-build"@),
        at(output_dir, "KTX-Software-4.4.0"@),
        at(output_dir, "bindings.rs"@),
    )
}

/// Where the parts of a build lie.
pub proof fn the_parts_of_a_build_have_their_places(output_dir: PathModel)
    ensures
        build_in(output_dir).ktx_build_dir == at(output_dir, "KTX-Software-build"@),
        build_in(output_dir).ktx_source_dir == at(output_dir, "KTX-Software-4.4.0"@),
        build_in(output_dir).bindings_file == at(output_dir, "bindings.rs"@),
        build_of_package(output_dir) == build_in(at(output_dir, "out"@)),
{
    reveal_strlit("KTX-Software-");
    reveal_strlit("4.4.0");
    reveal_strlit("KTX-Software-4.4.0");
    assert(KTX_SOURCE_PREFIX@ + KTX_SOFTWARE_VERSION@ =~= "KTX-Software-4.4.0"@);
}

/// A build is valid exactly where it is whole, whatever the system is and wherever its parts lie.
pub proof fn a_valid_build_is_a_whole_one(world: World, os: Seq<char>, cache: CacheModel)
    ensures
        is_valid_cache(world, os, cache) <==> is_whole_at(
            world,
            os,
            cache.ktx_build_dir,
            cache.ktx_source_dir,
            cache.bindings_file,
        ),
{
    a_library_serves_where_it_can_be_linked(world, os, at(cache.ktx_build_dir, "lib"@));
    a_valid_file_is_a_usable_one(world, cache.bindings_file);
}

/// Two paths mean the same place only if they are equal, if the host resolves both to one path or,
/// on Windows, if their texts or those of what they resolve to differ in nothing but case and
/// slashes; and in each of these cases they do. Elsewhere two paths that are not equal and that the
/// host resolves to two are two places, whatever names they end in.
pub proof fn a_place_is_told_by_its_path(
    world: World,
    windows: bool,
    a: PathModel,
    b: PathModel,
    x: PathModel,
    y: PathModel,
)
    ensures
        a == b ==> is_same(world, windows, a, b),
        ({
            let both = world[QueryModel::Canonical(a)] == AnswerModel::Path(Some(x))
                && world[QueryModel::Canonical(b)] == AnswerModel::Path(Some(y));
            let neither = !(world[QueryModel::Canonical(a)] matches AnswerModel::Path(Some(_)))
                || !(world[QueryModel::Canonical(b)] matches AnswerModel::Path(Some(_)));
            let alike = lowered(backslashed(display(world, a))) == lowered(
                backslashed(display(world, b)),
            );
            let ends_alike = lowered(display(world, x)) == lowered(display(world, y));
            &&& both && x == y ==> is_same(world, windows, a, b)
            &&& !windows && a != b && both && x != y ==> !is_same(world, windows, a, b)
            &&& !windows && a != b && neither ==> !is_same(world, windows, a, b)
            &&& windows && alike ==> is_same(world, windows, a, b)
            &&& windows && both && ends_alike ==> is_same(world, windows, a, b)
            &&& windows && a != b && both && x != y && !ends_alike && !alike ==> !is_same(
                world,
                windows,
                a,
                b,
            )
            &&& windows && a != b && neither && !alike ==> !is_same(world, windows, a, b)
        }),
{
    assert forall|s: Seq<char>, t: Seq<char>| #[trigger]
        same_ignoring_case(s, t) <==> lowered(s) == lowered(t) by {
        ignoring_case_is_comparing_in_lower_case(s, t);
    }
}

/// A package may serve exactly where it is another place than the directory that the output
/// directory lies in.
pub proof fn another_package_is_another_place(
    world: World,
    windows: bool,
    package: PathModel,
    out_dir: PathModel,
)
    ensures
        forall|own: PathModel|
            parent(out_dir) == Some(own) ==> (is_other_package(world, windows, package, out_dir)
                <==> !#[trigger] is_same(world, windows, package, own)),
        parent(out_dir) is None ==> !is_other_package(world, windows, package, out_dir),
{
}

/// Whether a package directory in the build root is a build to reuse for the output directory: it is
/// listed in the directory of the package or, under the name of the package and a hash, beside that;
/// it is a directory, another place than the one that is built in, and holds a whole build.
pub open spec fn is_offered(
    world: World,
    env: EnvModel,
    root: PathModel,
    out_dir: PathModel,
    directory: PathModel,
    name: NameModel,
) -> bool {
    let package = directory.push(ComponentModel::Normal(name));
    &&& yes(world, QueryModel::IsDir(root))
    &&& {
        ||| directory == at(root, "ktx2-rw"@) && yes(world, QueryModel::IsDir(directory))
        ||| directory == root && (name matches NameModel::Text(text) && exists|hash: Seq<char>|
            text == #[trigger] ("ktx2-rw-"@ + hash))
    }
    &&& world[QueryModel::Entries(directory)] matches AnswerModel::Names(Some(names))
        && names.contains(name)
    &&& yes(world, QueryModel::IsDir(package))
    &&& parent(out_dir) matches Some(own) && !is_same(world, env.windows, package, own)
    &&& is_whole(world, os_of(env), at(package, "out"@))
}

/// The operating system that is built for; empty where none is given.
pub open spec fn os_of(env: EnvModel) -> Seq<char> {
    match env.target_os {
        Some(name) => name,
        None => Seq::empty(),
    }
}

/// Whether a build root offers nothing.
pub open spec fn offers_nothing(
    world: World,
    env: EnvModel,
    root: PathModel,
    out_dir: PathModel,
) -> bool {
    forall|directory: PathModel, name: NameModel|
        !(#[trigger] is_offered(world, env, root, out_dir, directory, name))
}

proof fn a_package_starts_with_its_name(name: NameModel)
    ensures
        has_package_prefix(name) <==> (name matches NameModel::Text(text) && exists|hash: Seq<char>|
            text == #[trigger] ("ktx2-rw-"@ + hash)),
{
    if let NameModel::Text(text) = name {
        a_prefix_and_the_rest_are_the_text(text, "ktx2-rw-"@);
        if has_package_prefix(name) {
            let hash = text.skip("ktx2-rw-"@.len() as int);
            assert("ktx2-rw-"@ + hash == text);
        }
        if exists|hash: Seq<char>| text == #[trigger] ("ktx2-rw-"@ + hash) {
            let hash = choose|hash: Seq<char>| text == #[trigger] ("ktx2-rw-"@ + hash);
            assert(strip_prefix(text, "ktx2-rw-"@) == Some(hash));
        }
    }
}

proof fn an_offer_is_a_reusable_entry(
    world: World,
    env: EnvModel,
    root: PathModel,
    out_dir: PathModel,
    directory: PathModel,
    name: NameModel,
)
    ensures
        is_offered(world, env, root, out_dir, directory, name) <==> {
            &&& is_dir(world, root)
            &&& directory == child(root, PACKAGE_NAME@) && is_dir(world, directory) || directory
                == root && has_package_prefix(name)
            &&& entries(world, directory) matches Some(names) && names.contains(name)
            &&& is_reusable(world, env, entry(directory, name), out_dir)
        },
{
    a_package_starts_with_its_name(name);
    let package = entry(directory, name);
    the_parts_of_a_build_have_their_places(package);
    the_parts_of_a_build_have_their_places(at(package, "out"@));
    a_valid_build_is_a_whole_one(world, os_of(env), build_of_package(package));
}

/// What a search of a build root comes to: where it finds nothing, nothing is offered; where it
/// finds a build, that is offered, nothing listed before it in its directory is, and one that lies
/// beside the directory of the package is found only if that directory offers nothing.
pub proof fn a_root_gives_the_first_that_it_offers(
    world: World,
    env: EnvModel,
    root: PathModel,
    out_dir: PathModel,
)
    ensures
        found_in_root(world, env, root, out_dir) is None <==> offers_nothing(
            world,
            env,
            root,
            out_dir,
        ),
        found_in_root(world, env, root, out_dir) matches Some(cache) ==> exists|
            directory: PathModel,
            names: Seq<NameModel>,
            i: int,
        |
            #![trigger is_offered(world, env, root, out_dir, directory, names[i])]
            {
                &&& 0 <= i < names.len()
                &&& world[QueryModel::Entries(directory)] == AnswerModel::Names(Some(names))
                &&& is_offered(world, env, root, out_dir, directory, names[i])
                &&& cache == build_in(
                    at(directory.push(ComponentModel::Normal(names[i])), "out"@),
                )
                &&& forall|j: int|
                    0 <= j < i ==> !is_offered(
                        world,
                        env,
                        root,
                        out_dir,
                        directory,
                        #[trigger] names[j],
                    )
                &&& directory == root ==> forall|name: NameModel|
                    !(#[trigger] is_offered(
                        world,
                        env,
                        root,
                        out_dir,
                        at(root, "ktx2-rw"@),
                        name,
                    ))
            },
{
    assert forall|directory: PathModel, name: NameModel| #[trigger]
        is_offered(world, env, root, out_dir, directory, name) <==> {
            &&& is_dir(world, root)
            &&& directory == child(root, PACKAGE_NAME@) && is_dir(world, directory) || directory
                == root && has_package_prefix(name)
            &&& entries(world, directory) matches Some(names) && names.contains(name)
            &&& is_reusable(world, env, entry(directory, name), out_dir)
        } by {
        an_offer_is_a_reusable_entry(world, env, root, out_dir, directory, name);
    }
    let package_dir = child(root, PACKAGE_NAME@);
    assert(package_dir.len() == root.len() + 1);
    a_directory_gives_its_first(world, env, package_dir, false, out_dir);
    a_directory_gives_its_first(world, env, root, true, out_dir);
    if let Some(cache) = found_in_root(world, env, root, out_dir) {
        let modern = found_in_package_dir(world, env, package_dir, out_dir) is Some;
        let directory = if modern {
            package_dir
        } else {
            root
        };
        let names = entries(world, directory)->0;
        let i = choose|i: int|
            0 <= i < names.len() && #[trigger] is_reusable(
                world,
                env,
                entry(directory, names[i]),
                out_dir,
            ) && is_eligible(names[i], !modern) && cache == build_of_package(
                entry(directory, names[i]),
            ) && forall|j: int|
                0 <= j < i ==> !(is_eligible(#[trigger] names[j], !modern) && is_reusable(
                    world,
                    env,
                    entry(directory, names[j]),
                    out_dir,
                ));
        the_parts_of_a_build_have_their_places(entry(directory, names[i]));
        assert(names.contains(names[i]));
        assert(is_offered(world, env, root, out_dir, directory, names[i]));
    }
}

proof fn a_directory_gives_its_first(
    world: World,
    env: EnvModel,
    directory: PathModel,
    prefixed: bool,
    out_dir: PathModel,
)
    ensures
        match first_in_directory(world, env, directory, prefixed, out_dir) {
            Some(cache) => entries(world, directory) matches Some(names) && exists|i: int|
                0 <= i < names.len() && #[trigger] is_reusable(
                    world,
                    env,
                    entry(directory, names[i]),
                    out_dir,
                ) && is_eligible(names[i], prefixed) && cache == build_of_package(
                    entry(directory, names[i]),
                ) && forall|j: int|
                    0 <= j < i ==> !(is_eligible(#[trigger] names[j], prefixed) && is_reusable(
                        world,
                        env,
                        entry(directory, names[j]),
                        out_dir,
                    )),
            None => entries(world, directory) matches Some(names) ==> forall|name: NameModel|
                names.contains(name) && is_eligible(name, prefixed) ==> !(#[trigger] is_reusable(
                    world,
                    env,
                    entry(directory, name),
                    out_dir,
                )),
        },
{
    if let Some(names) = entries(world, directory) {
        let find = reusable_entry(world, env, directory, prefixed, out_dir);
        first_found_comes_from_an_item(names, find);
        match first_in_directory(world, env, directory, prefixed, out_dir) {
            Some(cache) => {
                let i = choose|i: int|
                    0 <= i < names.len() && #[trigger] find(names[i]) == Some(cache) && forall|
                        j: int,
                    |
                        0 <= j < i ==> #[trigger] find(names[j]) is None;
                assert forall|j: int| 0 <= j < i implies !(is_eligible(
                    #[trigger] names[j],
                    prefixed,
                ) && is_reusable(world, env, entry(directory, names[j]), out_dir)) by {
                    assert(find(names[j]) is None);
                }
                assert(is_reusable(world, env, entry(directory, names[i]), out_dir));
            },
            None => {
                assert forall|name: NameModel|
                    names.contains(name) && is_eligible(name, prefixed) implies !(
                #[trigger] is_reusable(world, env, entry(directory, name), out_dir)) by {
                    let i = choose|i: int| 0 <= i < names.len() && names[i] == name;
                    assert(find(names[i]) is None);
                }
            },
        }
    }
}

} // verus!
