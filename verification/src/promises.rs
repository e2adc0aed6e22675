//! What users can rely on: a build that is there is found, and what is found is there.
use vstd::prelude::*;

use crate::cache::CacheModel;
use crate::context::{context_of, the_kind_of_a_build_is_told_by_names, ContextModel};
use crate::environment::{is_set, EnvModel};
use crate::git::{git_root, sibling_worktrees};
use crate::meaning::a_root_gives_the_first_that_it_offers;
use crate::meaning::{at, is_offered, is_whole, links, os_of, the_parts_of_a_build_have_their_places};
use crate::observe::{AnswerModel, QueryModel, World};
use crate::order::{no_other_worktree_is_left_out, no_profile_is_left_out};
use crate::path::{parent, ComponentModel, NameModel, PathModel};
use crate::reuse::{a_build_is_found_only_where_it_may_serve, found_build};
use crate::search::{found_in_root, is_same};
use crate::text::is_plain_name;
use crate::worktree::{found_in_worktrees, target_directories};

verus! {

/// A build that may be on the host.
pub struct BuildOnHost {
    /// The package directory.
    pub package: PathModel,
    /// The name of the library.
    pub library: Seq<char>,
    /// The size of the library.
    pub library_size: u64,
    /// The size of the bindings.
    pub bindings_size: u64,
}

impl BuildOnHost {
    /// The place that the names lead to, from the package directory on.
    pub open spec fn place(self, names: Seq<Seq<char>>) -> PathModel {
        self.package + names.map_values(
            |name: Seq<char>| ComponentModel::Normal(NameModel::Text(name)),
        )
    }

    /// Whether the host has all of it: the directories, and a header, a library and bindings of which
    /// the latter two can be opened and are not empty.
    pub open spec fn is_there(self, world: World) -> bool {
        let build = seq!["out"@, "KTX-Software-build"@];
        let sources = seq!["out"@, "KTX-Software-4.4.0"@];
        let library = self.place(build + seq!["lib"@, self.library]);
        let bindings = self.place(seq!["out"@, "bindings.rs"@]);
        &&& world[QueryModel::IsDir(self.package)] == AnswerModel::Flag(true)
        &&& world[QueryModel::IsDir(self.place(build))] == AnswerModel::Flag(true)
        &&& world[QueryModel::IsDir(self.place(build + seq!["lib"@]))] == AnswerModel::Flag(true)
        &&& world[QueryModel::IsDir(self.place(sources))] == AnswerModel::Flag(true)
        &&& world[QueryModel::IsFile(self.place(sources + seq!["include"@, "ktx.h"@]))]
            == AnswerModel::Flag(true)
        &&& world[QueryModel::IsFile(library)] == AnswerModel::Flag(true)
        &&& world[QueryModel::Size(library)] == AnswerModel::Size(Some(self.library_size))
        &&& world[QueryModel::CanOpen(library)] == AnswerModel::Flag(true)
        &&& self.library_size > 0
        &&& world[QueryModel::IsFile(bindings)] == AnswerModel::Flag(true)
        &&& world[QueryModel::Size(bindings)] == AnswerModel::Size(Some(self.bindings_size))
        &&& world[QueryModel::CanOpen(bindings)] == AnswerModel::Flag(true)
        &&& self.bindings_size > 0
    }

    /// Whether its library is of a kind that the system links.
    pub open spec fn serves(self, os: Option<Seq<char>>) -> bool {
        ||| self.library == "libktx.a"@
        ||| self.library == "ktx.lib"@ && os == Some("windows"@)
        ||| self.library == "libktx.dylib"@ && (os == Some("macos"@) || os == Some("ios"@))
        ||| self.library == "libktx.so"@ && os != Some("windows"@) && os != Some("macos"@) && os
            != Some("ios"@)
    }

    /// Whether it is listed in a build root: as an entry of the directory `ktx2-rw`, or of the build
    /// root under a name that starts with `ktx2-rw-`.
    pub open spec fn is_listed_in(self, world: World, root: PathModel, name: NameModel) -> bool {
        let directory = root.push(ComponentModel::Normal(NameModel::Text("ktx2-rw"@)));
        &&& world[QueryModel::IsDir(root)] == AnswerModel::Flag(true)
        &&& {
            ||| {
                &&& self.package == directory.push(ComponentModel::Normal(name))
                &&& world[QueryModel::IsDir(directory)] == AnswerModel::Flag(true)
                &&& world[QueryModel::Entries(directory)] matches AnswerModel::Names(Some(names))
                    && names.contains(name)
            }
            ||| {
                &&& self.package == root.push(ComponentModel::Normal(name))
                &&& name matches NameModel::Text(text) && "ktx2-rw-"@.is_prefix_of(text)
                &&& world[QueryModel::Entries(root)] matches AnswerModel::Names(Some(names))
                    && names.contains(name)
            }
        }
    }
}

proof fn a_place_is_the_names_one_by_one(build: BuildOnHost, names: Seq<Seq<char>>, last: Seq<char>)
    ensures
        build.place(names + seq![last]) == at(build.place(names), last),
        build.place(Seq::empty()) == build.package,
{
    assert(build.place(names + seq![last]) =~= at(build.place(names), last));
    assert(build.place(Seq::empty()) =~= build.package);
}

proof fn a_build_on_the_host_is_offered(
    world: World,
    env: EnvModel,
    root: PathModel,
    out_dir: PathModel,
    build: BuildOnHost,
    name: NameModel,
)
    requires
        build.is_there(world),
        build.serves(env.target_os),
        build.is_listed_in(world, root, name),
        parent(out_dir) matches Some(own) && !is_same(world, env.windows, build.package, own),
    ensures
        exists|directory: PathModel| #[trigger]
            is_offered(world, env, root, out_dir, directory, name),
        found_in_root(world, env, root, out_dir) is Some,
{
    let out = seq!["out"@];
    let none = Seq::<Seq<char>>::empty();
    assert(none + out =~= out);
    a_place_is_the_names_one_by_one(build, none, "out"@);
    let output_dir = at(build.package, "out"@);
    assert(build.place(out) == output_dir);
    let built = seq!["out"@, "KTX-Software-build"@];
    assert(out + seq!["KTX-Software-build"@] =~= built);
    a_place_is_the_names_one_by_one(build, out, "KTX-Software-build"@);
    a_place_is_the_names_one_by_one(build, built, "lib"@);
    let libs = built + seq!["lib"@];
    assert(libs + seq![build.library] =~= built + seq!["lib"@, build.library]);
    a_place_is_the_names_one_by_one(build, libs, build.library);
    let sources = seq!["out"@, "KTX-Software-4.4.0"@];
    assert(out + seq!["KTX-Software-4.4.0"@] =~= sources);
    a_place_is_the_names_one_by_one(build, out, "KTX-Software-4.4.0"@);
    a_place_is_the_names_one_by_one(build, sources, "include"@);
    let includes = sources + seq!["include"@];
    assert(includes + seq!["ktx.h"@] =~= sources + seq!["include"@, "ktx.h"@]);
    a_place_is_the_names_one_by_one(build, includes, "ktx.h"@);
    assert(out + seq!["bindings.rs"@] =~= seq!["out"@, "bindings.rs"@]);
    a_place_is_the_names_one_by_one(build, out, "bindings.rs"@);
    let lib_dir = at(at(output_dir, "KTX-Software-build"@), "lib"@);
    reveal_strlit("windows");
    reveal_strlit("macos");
    reveal_strlit("ios");
    assert("windows"@.len() == 7 && "macos"@.len() == 5 && "ios"@.len() == 3);
    assert(os_of(env) != "windows"@ || env.target_os == Some("windows"@));
    assert(os_of(env) != "macos"@ || env.target_os == Some("macos"@));
    assert(os_of(env) != "ios"@ || env.target_os == Some("ios"@));
    assert(links(world, os_of(env), lib_dir, build.library));
    assert(is_whole(world, os_of(env), output_dir));
    let beside = build.package == root.push(ComponentModel::Normal(name));
    let directory = if beside {
        root
    } else {
        at(root, "ktx2-rw"@)
    };
    if beside {
        // The lengths tell the two directories apart.
        assert(at(root, "ktx2-rw"@).push(ComponentModel::Normal(name)).len() == root.len() + 2);
        let text = name->Text_0;
        let hash = text.skip("ktx2-rw-"@.len() as int);
        assert(text =~= "ktx2-rw-"@ + hash);
    }
    assert(is_offered(world, env, root, out_dir, directory, name));
    a_root_gives_the_first_that_it_offers(world, env, root, out_dir);
}

/// A build that is on the host, serves the system, is listed in a build root and is another place
/// than the package that is built is not overlooked there.
pub proof fn a_build_in_a_root_is_found(
    world: World,
    env: EnvModel,
    root: PathModel,
    out_dir: PathModel,
    build: BuildOnHost,
    name: NameModel,
)
    requires
        build.is_there(world),
        build.serves(env.target_os),
        build.is_listed_in(world, root, name),
        parent(out_dir) matches Some(own) && !is_same(world, env.windows, build.package, own),
    ensures
        found_in_root(world, env, root, out_dir) is Some,
{
    a_build_on_the_host_is_offered(world, env, root, out_dir, build, name);
}

/// A build in the own target directory is not overlooked, neither one of the profile that is built
/// nor one of the other: of two builds of a crate, one for debugging and one for release, each is
/// served by the other, whatever the variables say of worktrees.
pub proof fn a_build_at_home_is_found(
    world: World,
    env: EnvModel,
    out_dir: PathModel,
    context: ContextModel,
    directory: PathModel,
    own_profile: Seq<char>,
    profile: Seq<char>,
    build: BuildOnHost,
    name: NameModel,
)
    requires
        context_of(out_dir, env.target) == Some(context),
        own_profile == "debug"@ || own_profile == "release"@,
        profile == "debug"@ || profile == "release"@,
        context.current_build_root == at(at(directory, own_profile), "build"@),
        context.cargo_root() == context.current_build_root,
        build.is_there(world),
        build.serves(env.target_os),
        build.is_listed_in(world, at(at(directory, profile), "build"@), name),
        parent(out_dir) matches Some(own) && !is_same(world, env.windows, build.package, own),
    ensures
        found_build(world, env, out_dir) is Some,
{
    reveal_strlit("debug");
    reveal_strlit("release");
    assert("debug"@.len() != "release"@.len());
    let root = at(at(directory, profile), "build"@);
    a_build_on_the_host_is_offered(world, env, root, out_dir, build, name);
    let own_root = context.current_build_root;
    let up = at(directory, own_profile);
    assert(own_root.drop_last() =~= up);
    assert(up.drop_last() =~= directory);
    the_kind_of_a_build_is_told_by_names(context, up);
    if found_build(world, env, out_dir) is None {
        no_profile_is_left_out(world, env, out_dir, context, directory);
        assert(root == own_root || context.is_release() == (profile == "debug"@));
    }
}

/// Where other worktrees may be searched, a build in any of them is not overlooked: whichever
/// worktree it is, whichever of its target directories and whichever profile, if only it is for the
/// triple that is built for.
pub proof fn a_build_elsewhere_is_found(
    world: World,
    env: EnvModel,
    out_dir: PathModel,
    context: ContextModel,
    git: PathModel,
    worktree: PathModel,
    target_dir: PathModel,
    profile: Seq<char>,
    build: BuildOnHost,
    name: NameModel,
)
    requires
        context_of(out_dir, env.target) == Some(context),
        !is_set(env.no_worktree_cache),
        git_root(world, context.current_target_root) == Some(git),
        sibling_worktrees(world, env.windows, git).contains(worktree),
        target_directories(world, worktree).contains(target_dir),
        profile == "debug"@ || profile == "release"@,
        build.is_there(world),
        build.serves(env.target_os),
        parent(out_dir) matches Some(own) && !is_same(world, env.windows, build.package, own),
        ({
            let own_dir = match context.target_triple {
                Some(triple) => at(target_dir, triple),
                None => target_dir,
            };
            ||| build.is_listed_in(world, at(at(own_dir, profile), "build"@), name)
            ||| context.target_triple is None && (env.target matches Some(host) && is_plain_name(
                host,
            ) && profile == context.profile() && build.is_listed_in(
                world,
                at(at(at(target_dir, host), profile), "build"@),
                name,
            ))
        }),
    ensures
        found_build(world, env, out_dir) is Some,
{
    if found_build(world, env, out_dir) is None {
        assert(found_in_worktrees(world, env, context, out_dir) is None);
        no_other_worktree_is_left_out(
            world,
            env,
            context,
            out_dir,
            git,
            worktree,
            target_dir,
            profile,
        );
        let own_dir = match context.target_triple {
            Some(triple) => at(target_dir, triple),
            None => target_dir,
        };
        let root = at(at(own_dir, profile), "build"@);
        if build.is_listed_in(world, root, name) {
            a_build_on_the_host_is_offered(world, env, root, out_dir, build, name);
        } else {
            let explicit = at(at(at(target_dir, env.target->0), profile), "build"@);
            a_build_on_the_host_is_offered(world, env, explicit, out_dir, build, name);
        }
    }
}

/// What a search finds is whole: the host has said of each of its parts that it is there, and of the
/// bindings and of a library that the system links that they can be used.
pub proof fn what_is_found_is_there(
    world: World,
    env: EnvModel,
    out_dir: PathModel,
    cache: CacheModel,
)
    requires
        found_build(world, env, out_dir) == Some(cache),
    ensures
        world[QueryModel::IsDir(cache.ktx_build_dir)] == AnswerModel::Flag(true),
        world[QueryModel::IsDir(cache.ktx_source_dir)] == AnswerModel::Flag(true),
        world[QueryModel::IsFile(at(at(cache.ktx_source_dir, "include"@), "ktx.h"@))]
            == AnswerModel::Flag(true),
        world[QueryModel::IsFile(cache.bindings_file)] == AnswerModel::Flag(true),
        world[QueryModel::Size(cache.bindings_file)] matches AnswerModel::Size(Some(bytes)) && bytes
            > 0,
        world[QueryModel::CanOpen(cache.bindings_file)] == AnswerModel::Flag(true),
        cache.ktx_source_dir.drop_last() == cache.ktx_build_dir.drop_last(),
        cache.bindings_file.drop_last() == cache.ktx_build_dir.drop_last(),
        exists|name: Seq<char>| #[trigger]
            links(world, os_of(env), at(cache.ktx_build_dir, "lib"@), name),
{
    a_build_is_found_only_where_it_may_serve(world, env, out_dir, cache);
    let package = crate::cache::package_of(cache);
    let output_dir = at(package, "out"@);
    the_parts_of_a_build_have_their_places(package);
    the_parts_of_a_build_have_their_places(output_dir);
    crate::meaning::a_valid_build_is_a_whole_one(world, os_of(env), cache);
    assert(cache.ktx_build_dir.drop_last() =~= output_dir);
    assert(cache.ktx_source_dir.drop_last() =~= output_dir);
    assert(cache.bindings_file.drop_last() =~= output_dir);
}

} // verus!
