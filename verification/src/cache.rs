//! A build of KTX-Software that an earlier run left behind.
use vstd::prelude::*;

use crate::observe::{also, can_open, entries, is_dir, is_file, settle, size};
use crate::observe::group_settle;
use crate::observe::{Observations, Progress, QueryModel, World};
use crate::path::{child, same_text};
use crate::path::{HostPath, PathModel};

verus! {

/// The version of KTX-Software that is built.
pub const KTX_SOFTWARE_VERSION: &'static str = "4.4.0";

pub const KTX_SOURCE_PREFIX: &'static str = "KTX-Software-";

pub const OUTPUT_DIR_NAME: &'static str = "out";

pub const KTX_BUILD_DIR_NAME: &'static str = "KTX-Software-build";

pub const KTX_BINDINGS_FILE_NAME: &'static str = "bindings.rs";

pub const LIB_DIR_NAME: &'static str = "lib";

pub const INCLUDE_DIR_NAME: &'static str = "include";

pub const KTX_HEADER_NAME: &'static str = "ktx.h";

/// Where the parts of a finished build lie.
#[derive(Debug)]
pub struct CachedBuild {
    /// What CMake built and installed.
    pub ktx_build_dir: HostPath,
    /// The sources, with the headers.
    pub ktx_source_dir: HostPath,
    /// The generated bindings.
    pub bindings_file: HostPath,
}

/// What a cached build says.
pub struct CacheModel {
    pub ktx_build_dir: PathModel,
    pub ktx_source_dir: PathModel,
    pub bindings_file: PathModel,
}

impl View for CachedBuild {
    type V = CacheModel;

    open spec fn view(&self) -> CacheModel {
        CacheModel {
            ktx_build_dir: self.ktx_build_dir@,
            ktx_source_dir: self.ktx_source_dir@,
            bindings_file: self.bindings_file@,
        }
    }
}

impl DeepView for CachedBuild {
    type V = CacheModel;

    open spec fn deep_view(&self) -> CacheModel {
        self@
    }
}

/// The name of the source directory, which carries the version.
pub open spec fn source_dir_name() -> Seq<char> {
    KTX_SOURCE_PREFIX@ + KTX_SOFTWARE_VERSION@
}

/// The parts of a build in an output directory.
pub open spec fn build_in(output_dir: PathModel) -> CacheModel {
    CacheModel {
        ktx_build_dir: child(output_dir, KTX_BUILD_DIR_NAME@),
        ktx_source_dir: child(output_dir, source_dir_name()),
        bindings_file: child(output_dir, KTX_BINDINGS_FILE_NAME@),
    }
}

/// The parts of the build that a package directory may hold.
pub open spec fn build_of_package(package_dir: PathModel) -> CacheModel {
    build_in(child(package_dir, OUTPUT_DIR_NAME@))
}

/// The package directory that a build of a package lies in.
pub open spec fn package_of(cache: CacheModel) -> PathModel {
    cache.ktx_build_dir.drop_last().drop_last()
}

/// A build of a package lies in that package.
pub proof fn package_of_build(package_dir: PathModel)
    ensures
        package_of(build_of_package(package_dir)) == package_dir,
{
    let output_dir = child(package_dir, OUTPUT_DIR_NAME@);
    assert(child(output_dir, KTX_BUILD_DIR_NAME@).drop_last() =~= output_dir);
    assert(output_dir.drop_last() =~= package_dir);
}

/// A regular file that is not empty and can be opened.
pub open spec fn is_valid_file(world: World, path: PathModel) -> bool {
    &&& is_file(world, path)
    &&& size(world, path) matches Some(bytes) && bytes > 0
    &&& can_open(world, path)
}

pub open spec fn valid_file_asked(world: World, path: PathModel) -> Seq<QueryModel> {
    seq![QueryModel::IsFile(path)] + also(
        is_file(world, path),
        seq![QueryModel::Size(path)] + also(
            size(world, path) matches Some(bytes) && bytes > 0,
            seq![QueryModel::CanOpen(path)],
        ),
    )
}

/// A framework: a directory that can be listed and is not empty, or a valid file.
pub open spec fn is_valid_framework(world: World, path: PathModel) -> bool {
    ||| is_valid_file(world, path)
    ||| is_dir(world, path) && (entries(world, path) matches Some(names) && names.len() > 0)
}

pub open spec fn framework_asked(world: World, path: PathModel) -> Seq<QueryModel> {
    valid_file_asked(world, path) + also(
        !is_valid_file(world, path),
        seq![QueryModel::IsDir(path)] + also(is_dir(world, path), seq![QueryModel::Entries(path)]),
    )
}

/// Whether the library directory holds a library of a kind that the operating system links.
pub open spec fn has_library(world: World, os: Seq<char>, lib_dir: PathModel) -> bool {
    if os == "windows"@ {
        ||| is_valid_file(world, child(lib_dir, "ktx.lib"@))
        ||| is_valid_file(world, child(lib_dir, "libktx.a"@))
    } else if os == "macos"@ || os == "ios"@ {
        ||| is_valid_file(world, child(lib_dir, "libktx.a"@))
        ||| is_valid_file(world, child(lib_dir, "libktx.dylib"@))
        ||| is_valid_framework(world, child(lib_dir, "ktx.framework"@))
    } else {
        ||| is_valid_file(world, child(lib_dir, "libktx.a"@))
        ||| is_valid_file(world, child(lib_dir, "libktx.so"@))
    }
}

/// The queries that tell whether one of two files is valid, the second only if the first is not.
pub open spec fn either_file_asked(
    world: World,
    first: PathModel,
    second: PathModel,
) -> Seq<QueryModel> {
    valid_file_asked(world, first) + also(
        !is_valid_file(world, first),
        valid_file_asked(world, second),
    )
}

pub open spec fn library_asked(world: World, os: Seq<char>, lib_dir: PathModel) -> Seq<QueryModel> {
    let archive = child(lib_dir, "libktx.a"@);
    if os == "windows"@ {
        either_file_asked(world, child(lib_dir, "ktx.lib"@), archive)
    } else if os == "macos"@ || os == "ios"@ {
        let dylib = child(lib_dir, "libktx.dylib"@);
        either_file_asked(world, archive, dylib) + also(
            !is_valid_file(world, archive) && !is_valid_file(world, dylib),
            framework_asked(world, child(lib_dir, "ktx.framework"@)),
        )
    } else {
        either_file_asked(world, archive, child(lib_dir, "libktx.so"@))
    }
}

/// Whether everything that a later build needs is there.
pub open spec fn is_valid_cache(world: World, os: Seq<char>, cache: CacheModel) -> bool {
    let lib_dir = child(cache.ktx_build_dir, LIB_DIR_NAME@);
    let header = child(child(cache.ktx_source_dir, INCLUDE_DIR_NAME@), KTX_HEADER_NAME@);
    &&& is_dir(world, cache.ktx_build_dir)
    &&& is_dir(world, lib_dir)
    &&& has_library(world, os, lib_dir)
    &&& is_dir(world, cache.ktx_source_dir)
    &&& is_file(world, header)
    &&& is_valid_file(world, cache.bindings_file)
}

pub open spec fn cache_asked(world: World, os: Seq<char>, cache: CacheModel) -> Seq<QueryModel> {
    let lib_dir = child(cache.ktx_build_dir, LIB_DIR_NAME@);
    let header = child(child(cache.ktx_source_dir, INCLUDE_DIR_NAME@), KTX_HEADER_NAME@);
    seq![QueryModel::IsDir(cache.ktx_build_dir)] + also(
        is_dir(world, cache.ktx_build_dir),
        seq![QueryModel::IsDir(lib_dir)] + also(
            is_dir(world, lib_dir),
            library_asked(world, os, lib_dir) + also(
                has_library(world, os, lib_dir),
                seq![QueryModel::IsDir(cache.ktx_source_dir)] + also(
                    is_dir(world, cache.ktx_source_dir),
                    seq![QueryModel::IsFile(header)] + also(
                        is_file(world, header),
                        valid_file_asked(world, cache.bindings_file),
                    ),
                ),
            ),
        ),
    )
}

/// Whether the path leads to a regular file that is not empty and can be opened.
pub fn is_valid_non_empty_file(seen: &Observations, path: &HostPath) -> (valid: Progress<bool>)
    ensures
        valid@ == settle(seen@, valid_file_asked(seen@, path@), is_valid_file(seen@, path@)),
{
    broadcast use group_settle;

    match seen.is_file(path) {
        Progress::Done(true) => {},
        other => return other,
    }
    match seen.size(path) {
        Progress::Done(Some(bytes)) => if bytes == 0 {
            return Progress::Done(false);
        },
        Progress::Done(None) => return Progress::Done(false),
        Progress::Need(query) => return Progress::Need(query),
    }
    seen.can_open(path)
}

fn either_valid_file(seen: &Observations, first: &HostPath, second: &HostPath) -> (valid: Progress<
    bool,
>)
    ensures
        valid@ == settle(
            seen@,
            either_file_asked(seen@, first@, second@),
            is_valid_file(seen@, first@) || is_valid_file(seen@, second@),
        ),
{
    broadcast use group_settle;

    match is_valid_non_empty_file(seen, first) {
        Progress::Done(false) => is_valid_non_empty_file(seen, second),
        other => other,
    }
}

fn has_valid_framework(seen: &Observations, path: &HostPath) -> (valid: Progress<bool>)
    ensures
        valid@ == settle(seen@, framework_asked(seen@, path@), is_valid_framework(seen@, path@)),
{
    broadcast use group_settle;

    match is_valid_non_empty_file(seen, path) {
        Progress::Done(false) => {},
        other => return other,
    }
    match seen.is_dir(path) {
        Progress::Done(true) => {},
        other => return other,
    }
    match seen.entries(path) {
        Progress::Done(Some(names)) => Progress::Done(names.len() > 0),
        Progress::Done(None) => Progress::Done(false),
        Progress::Need(query) => Progress::Need(query),
    }
}

/// Whether the library directory holds a library of a kind that the operating system links.
pub fn has_valid_target_library(
    seen: &Observations,
    target_os: &str,
    lib_dir: &HostPath,
) -> (valid: Progress<bool>)
    ensures
        valid@ == settle(
            seen@,
            library_asked(seen@, target_os@, lib_dir@),
            has_library(seen@, target_os@, lib_dir@),
        ),
{
    broadcast use group_settle;

    let archive = lib_dir.child("libktx.a");
    if same_text(target_os, "windows") {
        either_valid_file(seen, &lib_dir.child("ktx.lib"), &archive)
    } else if same_text(target_os, "macos") || same_text(target_os, "ios") {
        match either_valid_file(seen, &archive, &lib_dir.child("libktx.dylib")) {
            Progress::Done(false) => has_valid_framework(seen, &lib_dir.child("ktx.framework")),
            other => other,
        }
    } else {
        either_valid_file(seen, &archive, &lib_dir.child("libktx.so"))
    }
}

fn source_dir(output_dir: &HostPath) -> (path: HostPath)
    ensures
        path@ == child(output_dir@, source_dir_name()),
{
    let name = KTX_SOURCE_PREFIX.to_owned().concat(KTX_SOFTWARE_VERSION);
    output_dir.child(name.as_str())
}

impl CachedBuild {
    pub(crate) fn in_output_dir(output_dir: &HostPath) -> (cache: Self)
        ensures
            cache@ == build_in(output_dir@),
    {
        CachedBuild {
            ktx_build_dir: output_dir.child(KTX_BUILD_DIR_NAME),
            ktx_source_dir: source_dir(output_dir),
            bindings_file: output_dir.child(KTX_BINDINGS_FILE_NAME),
        }
    }

    /// The parts of the build that the package directory may hold.
    pub fn from_package_dir(package_dir: &HostPath) -> (cache: Self)
        ensures
            cache@ == build_of_package(package_dir@),
    {
        CachedBuild::in_output_dir(&package_dir.child(OUTPUT_DIR_NAME))
    }

    /// Whether everything that a later build needs is there.
    pub fn validate(&self, seen: &Observations, target_os: &str) -> (valid: Progress<bool>)
        ensures
            valid@ == settle(
                seen@,
                cache_asked(seen@, target_os@, self@),
                is_valid_cache(seen@, target_os@, self@),
            ),
    {
        broadcast use group_settle;

        match seen.is_dir(&self.ktx_build_dir) {
            Progress::Done(true) => {},
            other => return other,
        }
        let lib_dir = self.ktx_build_dir.child(LIB_DIR_NAME);
        match seen.is_dir(&lib_dir) {
            Progress::Done(true) => {},
            other => return other,
        }
        match has_valid_target_library(seen, target_os, &lib_dir) {
            Progress::Done(true) => {},
            other => return other,
        }
        match seen.is_dir(&self.ktx_source_dir) {
            Progress::Done(true) => {},
            other => return other,
        }
        let header = self.ktx_source_dir.child(INCLUDE_DIR_NAME).child(KTX_HEADER_NAME);
        match seen.is_file(&header) {
            Progress::Done(true) => {},
            other => return other,
        }
        is_valid_non_empty_file(seen, &self.bindings_file)
    }
}

} // verus!
