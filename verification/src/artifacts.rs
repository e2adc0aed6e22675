//! What a restore leaves in its target.
use vstd::prelude::*;

use crate::cache::{build_in, has_library, is_valid_cache, is_valid_file, is_valid_framework};
use crate::cache::{CacheModel, LIB_DIR_NAME};
use crate::copy::{a_walk_copies_every_file, an_entry_is_described, an_entry_is_written};
use crate::copy::{describes, is_yes, names_in, names_of, walked, writes_of};
use crate::copy::{CopyReplyModel, CopyRequestModel, TreeModel, WalkModel};
use crate::observe::{entries, is_dir, is_file, World};
use crate::path::{child, entry, parent};
use crate::path::{NameModel, PathModel};

verus! {

/// Whether the replies to a walk are what the host tells, on which nothing is a file and a
/// directory at once.
pub open spec fn replies_tell(
    respond: spec_fn(CopyRequestModel) -> CopyReplyModel,
    world: World,
) -> bool {
    forall|path: PathModel|
        #![trigger is_dir(world, path)]
        #![trigger is_file(world, path)]
        #![trigger entries(world, path)]
        {
            &&& is_yes(respond(CopyRequestModel::IsDir(path))) == is_dir(world, path)
            &&& is_yes(respond(CopyRequestModel::IsFile(path))) == is_file(world, path)
            &&& names_in(respond(CopyRequestModel::ReadDir(path))) == entries(world, path)
            &&& !(is_dir(world, path) && is_file(world, path))
        }
}

/// Whether a directory can be listed and is not empty.
pub open spec fn has_entries(world: World, directory: PathModel) -> bool {
    entries(world, directory) matches Some(names) && names.len() > 0
}

/// Whether a write shows: what was made is a directory, what was copied is as valid a file as it
/// was before, and the directory that either lies in is not empty.
pub open spec fn shows(before: World, after: World, write: CopyRequestModel) -> bool {
    match write {
        CopyRequestModel::CreateDir(to) => is_dir(after, to) && (parent(to) matches Some(up)
            ==> has_entries(after, up)),
        CopyRequestModel::CopyFile(from, to) => (is_valid_file(before, from) ==> is_valid_file(
            after,
            to,
        )) && (parent(to) matches Some(up) ==> has_entries(after, up)),
        _ => true,
    }
}

/// Whether a name is one that a library may have.
pub open spec fn is_library_name(name: Seq<char>) -> bool {
    ||| name == "ktx.lib"@
    ||| name == "libktx.a"@
    ||| name == "libktx.dylib"@
    ||| name == "libktx.so"@
    ||| name == "ktx.framework"@
}

/// Whether the directory lists every library that is in it.
pub open spec fn lists_libraries(world: World, lib_dir: PathModel) -> bool {
    forall|name: Seq<char>|
        is_library_name(name) && (is_file(world, #[trigger] child(lib_dir, name)) || is_dir(
            world,
            child(lib_dir, name),
        )) ==> (entries(world, lib_dir) matches Some(names) && names.contains(
            NameModel::Text(name),
        ))
}

/// Whether the framework of the library directory, if it is a directory that is not empty, holds
/// something that can be copied: a file or a directory.
pub open spec fn framework_has_content(world: World, lib_dir: PathModel) -> bool {
    let framework = child(lib_dir, "ktx.framework"@);
    is_dir(world, framework) && has_entries(world, framework) ==> exists|name: NameModel|
        entries(world, framework)->0.contains(name) && (is_file(
            world,
            #[trigger] entry(framework, name),
        ) || is_dir(world, entry(framework, name)))
}

proof fn a_listed_entry_is_written(
    world: World,
    respond: spec_fn(CopyRequestModel) -> CopyReplyModel,
    from: PathModel,
    to: PathModel,
    items: Seq<(NameModel, TreeModel)>,
    name: NameModel,
) -> (tree: TreeModel)
    requires
        replies_tell(respond, world),
        describes(respond, from, TreeModel::Directory(items)),
        entries(world, from) matches Some(names) && names.contains(name),
        is_file(world, entry(from, name)) || is_dir(world, entry(from, name)),
    ensures
        describes(respond, entry(from, name), tree),
        is_file(world, entry(from, name)) <==> tree is File,
        is_dir(world, entry(from, name)) <==> tree is Directory,
        forall|write: CopyRequestModel|
            writes_of(entry(from, name), entry(to, name), tree).contains(write)
                ==> #[trigger] writes_of(from, to, TreeModel::Directory(items)).contains(write),
        tree is File ==> writes_of(from, to, TreeModel::Directory(items)).contains(
            CopyRequestModel::CopyFile(entry(from, name), entry(to, name)),
        ),
        tree is Directory ==> writes_of(from, to, TreeModel::Directory(items)).contains(
            CopyRequestModel::CreateDir(entry(to, name)),
        ),
{
    let names = names_of(items);
    assert(entries(world, from) == Some(names));
    let i = choose|i: int| 0 <= i < names.len() && names[i] == name;
    let tree = items[i].1;
    assert(items[i].0 == name);
    an_entry_is_described(respond, from, items, i);
    let place = entry(from, name);
    assert(is_yes(respond(CopyRequestModel::IsDir(place))) == is_dir(world, place));
    let writes = writes_of(place, entry(to, name), tree);
    let all = writes_of(from, to, TreeModel::Directory(items));
    assert forall|write: CopyRequestModel| writes.contains(write) implies #[trigger] all.contains(
        write,
    ) by {
        an_entry_is_written(from, to, items, i, write);
    }
    if tree is File || tree is Directory {
        assert(writes.contains(writes[0]));
        assert(all.contains(writes[0]));
    }
    tree
}

proof fn a_library_file_is_copied(
    before: World,
    after: World,
    respond: spec_fn(CopyRequestModel) -> CopyReplyModel,
    from: PathModel,
    to: PathModel,
    items: Seq<(NameModel, TreeModel)>,
    name: Seq<char>,
)
    requires
        replies_tell(respond, before),
        lists_libraries(before, from),
        is_library_name(name),
        describes(respond, from, TreeModel::Directory(items)),
        forall|write: CopyRequestModel| #[trigger]
            writes_of(from, to, TreeModel::Directory(items)).contains(write) ==> shows(
                before,
                after,
                write,
            ),
    ensures
        is_valid_file(before, child(from, name)) ==> is_valid_file(after, child(to, name)),
{
    if is_valid_file(before, child(from, name)) {
        let tree = a_listed_entry_is_written(
            before,
            respond,
            from,
            to,
            items,
            NameModel::Text(name),
        );
        assert(shows(
            before,
            after,
            CopyRequestModel::CopyFile(child(from, name), child(to, name)),
        ));
    }
}

proof fn a_framework_is_copied(
    before: World,
    after: World,
    respond: spec_fn(CopyRequestModel) -> CopyReplyModel,
    from: PathModel,
    to: PathModel,
    items: Seq<(NameModel, TreeModel)>,
)
    requires
        replies_tell(respond, before),
        lists_libraries(before, from),
        framework_has_content(before, from),
        describes(respond, from, TreeModel::Directory(items)),
        forall|write: CopyRequestModel| #[trigger]
            writes_of(from, to, TreeModel::Directory(items)).contains(write) ==> shows(
                before,
                after,
                write,
            ),
    ensures
        is_valid_framework(before, child(from, "ktx.framework"@)) ==> is_valid_framework(
            after,
            child(to, "ktx.framework"@),
        ),
{
    let name = NameModel::Text("ktx.framework"@);
    let (source, place) = (entry(from, name), entry(to, name));
    a_library_file_is_copied(before, after, respond, from, to, items, "ktx.framework"@);
    if is_valid_framework(before, source) && !is_valid_file(before, source) {
        let tree = a_listed_entry_is_written(before, respond, from, to, items, name);
        assert(shows(before, after, CopyRequestModel::CreateDir(place)));
        let inner = tree->Directory_0;
        let held = choose|held: NameModel|
            entries(before, source)->0.contains(held) && (is_file(
                before,
                #[trigger] entry(source, held),
            ) || is_dir(before, entry(source, held)));
        let part = a_listed_entry_is_written(before, respond, source, place, inner, held);
        let write = if part is File {
            CopyRequestModel::CopyFile(entry(source, held), entry(place, held))
        } else {
            CopyRequestModel::CreateDir(entry(place, held))
        };
        assert(writes_of(source, place, tree).contains(write));
        assert(writes_of(from, to, TreeModel::Directory(items)).contains(write));
        assert(shows(before, after, write));
        assert(entry(place, held).drop_last() =~= place);
    }
}

/// What is copied is what the check of the artifacts asks for. Where a valid build was taken over,
/// that is, where the walk through its libraries ended with success, the bindings were copied and
/// what was written shows, the target has a library for the operating system and valid bindings.
/// Left out is a framework that holds neither files nor directories, since nothing of it is copied.
pub proof fn a_restored_build_has_its_artifacts(
    before: World,
    after: World,
    os: Seq<char>,
    cache: CacheModel,
    target: PathModel,
    items: Seq<(NameModel, TreeModel)>,
    respond: spec_fn(CopyRequestModel) -> CopyReplyModel,
    n: nat,
)
    requires
        is_valid_cache(before, os, cache),
        ({
            let from = child(cache.ktx_build_dir, LIB_DIR_NAME@);
            let to = child(build_in(target).ktx_build_dir, LIB_DIR_NAME@);
            let (walk, writes) = walked(WalkModel::start(from, to), respond, n);
            &&& replies_tell(respond, before)
            &&& lists_libraries(before, from)
            &&& framework_has_content(before, from)
            &&& describes(respond, from, TreeModel::Directory(items))
            &&& walk.outcome() == Some(true)
            &&& forall|i: int| 0 <= i < writes.len() ==> shows(before, after, #[trigger] writes[i])
        }),
        shows(
            before,
            after,
            CopyRequestModel::CopyFile(cache.bindings_file, build_in(target).bindings_file),
        ),
    ensures
        is_dir(after, child(build_in(target).ktx_build_dir, LIB_DIR_NAME@)),
        has_library(after, os, child(build_in(target).ktx_build_dir, LIB_DIR_NAME@)),
        is_valid_file(after, build_in(target).bindings_file),
{
    let from = child(cache.ktx_build_dir, LIB_DIR_NAME@);
    let to = child(build_in(target).ktx_build_dir, LIB_DIR_NAME@);
    a_walk_copies_every_file(from, to, items, respond, n);
    let writes = walked(WalkModel::start(from, to), respond, n).1;
    let all = writes_of(from, to, TreeModel::Directory(items));
    assert(writes == all);
    assert forall|write: CopyRequestModel| #[trigger] all.contains(write) implies shows(
        before,
        after,
        write,
    ) by {
        let i = choose|i: int| 0 <= i < all.len() && all[i] == write;
        assert(shows(before, after, writes[i]));
    }
    assert(all[0] == CopyRequestModel::CreateDir(to));
    assert(all.contains(all[0]));
    a_library_file_is_copied(before, after, respond, from, to, items, "ktx.lib"@);
    a_library_file_is_copied(before, after, respond, from, to, items, "libktx.a"@);
    a_library_file_is_copied(before, after, respond, from, to, items, "libktx.dylib"@);
    a_library_file_is_copied(before, after, respond, from, to, items, "libktx.so"@);
    a_framework_is_copied(before, after, respond, from, to, items);
}

} // verus!
