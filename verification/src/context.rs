//! Where in a Cargo target directory a build takes place.
use vstd::prelude::*;

use crate::path::{child, entry, file_name, is_ancestor, is_named, is_removable, is_within};
use crate::path::{nearest, parent};
use crate::path::nearest_is_the_closest_ancestor;
use crate::path::{ComponentModel, HostPath, Name, NameModel, PathModel};
use crate::text::has_prefix;

verus! {

pub const BUILD_DIR: &'static str = "build";

pub const DEBUG_DIR: &'static str = "debug";

pub const RELEASE_DIR: &'static str = "release";

pub const LLVM_COV_TARGET_DIR: &'static str = "llvm-cov-target";

pub const MIRI_TARGET_DIR: &'static str = "miri";

pub const TARGET_DIR: &'static str = "target";

pub const TARGET_DIR_PREFIX: &'static str = "target-";

/// The directories that a build works in.
#[derive(Debug)]
pub struct BuildContext {
    /// The `build` directory that holds the output of the running build script.
    pub current_build_root: HostPath,
    /// The target directory that this lies in.
    pub current_target_root: HostPath,
    /// The triple, where the output lies in a directory of its own for it.
    pub target_triple: Option<String>,
}

/// What a build context says.
pub struct ContextModel {
    pub current_build_root: PathModel,
    pub current_target_root: PathModel,
    pub target_triple: Option<Seq<char>>,
}

impl View for BuildContext {
    type V = ContextModel;

    open spec fn view(&self) -> ContextModel {
        ContextModel {
            current_build_root: self.current_build_root@,
            current_target_root: self.current_target_root@,
            target_triple: self.target_triple.deep_view(),
        }
    }
}

impl DeepView for BuildContext {
    type V = ContextModel;

    open spec fn deep_view(&self) -> ContextModel {
        self@
    }
}

/// Whether a path ends in the name, as a predicate on paths.
pub open spec fn named(name: Seq<char>) -> spec_fn(PathModel) -> bool {
    |path: PathModel| is_named(path, name)
}

/// Whether the directory that `path` stands in has that name.
pub open spec fn parent_is_named(path: PathModel, name: Seq<char>) -> bool {
    parent(path) matches Some(up) && is_named(up, name)
}

/// Whether a name is one that is given to a target directory besides the standard one.
pub open spec fn is_custom_target_name(name: NameModel) -> bool {
    name matches NameModel::Text(text) && TARGET_DIR_PREFIX@.is_prefix_of(text)
}

/// Whether a name is one that is given to a target directory of Cargo: `target` or `target-*`.
pub open spec fn is_target_name(name: NameModel) -> bool {
    name == NameModel::Text(TARGET_DIR@) || is_custom_target_name(name)
}

/// The context of a build with the output directory `out_dir`. The nearest `build` directory
/// above the output is the build root, and the target directory is two levels above that, or
/// three where the directory in between is named after the triple.
pub open spec fn context_of(out_dir: PathModel, target: Option<Seq<char>>) -> Option<ContextModel> {
    match parent(out_dir) {
        Some(package) => match nearest(package, named(BUILD_DIR@)) {
            Some(root) => match parent(root) {
                Some(profile) => match parent(profile) {
                    Some(top) => context_at(root, top, target),
                    None => None,
                },
                None => None,
            },
            None => None,
        },
        None => None,
    }
}

pub open spec fn context_at(root: PathModel, top: PathModel, target: Option<Seq<char>>) -> Option<
    ContextModel,
> {
    if target is Some && is_named(top, target->0) {
        match parent(top) {
            Some(base) => Some(
                ContextModel {
                    current_build_root: root,
                    current_target_root: base,
                    target_triple: target,
                },
            ),
            None => None,
        }
    } else {
        Some(
            ContextModel {
                current_build_root: root,
                current_target_root: top,
                target_triple: None,
            },
        )
    }
}

impl ContextModel {
    /// A coverage build.
    pub open spec fn is_llvm_cov(self) -> bool {
        is_named(self.current_target_root, LLVM_COV_TARGET_DIR@)
    }

    /// A build under Miri whose target directory lies below the one of Miri.
    pub open spec fn is_miri_with_target(self) -> bool {
        parent_is_named(self.current_target_root, MIRI_TARGET_DIR@)
    }

    /// A build under Miri.
    pub open spec fn is_miri(self) -> bool {
        is_named(self.current_target_root, MIRI_TARGET_DIR@) || self.is_miri_with_target()
    }

    /// A build for coverage or under Miri.
    pub open spec fn is_special(self) -> bool {
        self.is_llvm_cov() || self.is_miri()
    }

    /// A build in a target directory that is named like one of Cargo. What lies above it, be it
    /// named `miri`, is then the project and not the directory of Miri.
    pub open spec fn is_in_project(self) -> bool {
        file_name(self.current_target_root) matches Some(name) && is_target_name(name)
    }

    /// A special build in a target directory that lies inside the one of Cargo.
    pub open spec fn is_nested(self) -> bool {
        self.is_special() && !self.is_in_project()
    }

    pub open spec fn is_release(self) -> bool {
        parent_is_named(self.current_build_root, RELEASE_DIR@)
    }

    pub open spec fn profile(self) -> Seq<char> {
        profile_name(self.is_release())
    }

    pub open spec fn other_profile(self) -> Seq<char> {
        profile_name(!self.is_release())
    }

    /// The target directory of Cargo that a nested build's own one lies in.
    pub open spec fn outer_target_root(self) -> PathModel {
        match parent(self.current_target_root) {
            Some(up) => if self.is_miri_with_target() {
                match parent(up) {
                    Some(upper) => upper,
                    None => self.current_target_root,
                }
            } else {
                up
            },
            None => self.current_target_root,
        }
    }

    /// The directory that builds for the context's triple go to, in that target directory.
    pub open spec fn triple_dir(self, target_root: PathModel) -> PathModel {
        match self.target_triple {
            Some(triple) => child(target_root, triple),
            None => target_root,
        }
    }

    /// The build root where plain Cargo builds of the same kind leave their output.
    pub open spec fn cargo_root(self) -> PathModel {
        if self.is_nested() {
            build_root_in(self.triple_dir(self.outer_target_root()), self.profile())
        } else {
            self.current_build_root
        }
    }
}

pub open spec fn profile_name(release: bool) -> Seq<char> {
    if release {
        RELEASE_DIR@
    } else {
        DEBUG_DIR@
    }
}

/// The build root of a profile.
pub open spec fn build_root_in(directory: PathModel, profile: Seq<char>) -> PathModel {
    child(child(directory, profile), BUILD_DIR@)
}

/// The build root of the other profile beside the one of this build root.
pub open spec fn sibling_of(build_root: PathModel, release: bool) -> Option<PathModel> {
    match parent(build_root) {
        Some(profile) => match parent(profile) {
            Some(directory) => Some(build_root_in(directory, profile_name(!release))),
            None => None,
        },
        None => None,
    }
}

/// Finds the nearest directory of that name, from `start` upwards.
pub fn find_ancestor_named(start: &HostPath, name: &str) -> (found: Option<HostPath>)
    ensures
        found.deep_view() == nearest(start@, named(name@)),
{
    let mut current = start.clone();
    loop
        invariant
            nearest(start@, named(name@)) == nearest(current@, named(name@)),
        decreases current@.len(),
    {
        if current.is_named(name) {
            return Some(current);
        }
        match current.parent() {
            Some(up) => {
                current = up;
            },
            None => {
                return None;
            },
        }
    }
}

/// The name of the directory of a profile.
pub fn profile_dir(release: bool) -> (name: &'static str)
    ensures
        name@ == profile_name(release),
{
    if release {
        RELEASE_DIR
    } else {
        DEBUG_DIR
    }
}

/// Whether the name is one that is given to a target directory besides the standard one.
pub fn is_custom_target(name: &Name) -> (is: bool)
    ensures
        is == is_custom_target_name(name@),
{
    match name {
        Name::Text(text) => has_prefix(text.as_str(), TARGET_DIR_PREFIX),
        Name::Raw(_) => false,
    }
}

/// The build root of the other profile in the same target directory.
pub fn sibling_build_root(build_root: &HostPath, is_release: bool) -> (sibling: Option<HostPath>)
    ensures
        sibling.deep_view() == sibling_of(build_root@, is_release),
{
    match build_root.parent() {
        Some(profile) => match profile.parent() {
            Some(directory) => Some(
                directory.child(profile_dir(!is_release)).child(BUILD_DIR),
            ),
            None => None,
        },
        None => None,
    }
}

impl BuildContext {
    /// Reads the context off the output directory of the build script, with the triple that is
    /// built for. Both layouts of the build directory lead to the same context: one directory
    /// for each package and hash, and one for each package with one for each hash in it.
    pub fn from_out_dir(out_dir: &HostPath, target: &Option<String>) -> (context: Option<Self>)
        ensures
            context.deep_view() == context_of(out_dir@, target.deep_view()),
    {
        let package = match out_dir.parent() {
            Some(package) => package,
            None => return None,
        };
        let root = match find_ancestor_named(&package, BUILD_DIR) {
            Some(root) => root,
            None => return None,
        };
        let profile = match root.parent() {
            Some(profile) => profile,
            None => return None,
        };
        let top = match profile.parent() {
            Some(top) => top,
            None => return None,
        };
        if let Some(triple) = target {
            if top.is_named(triple.as_str()) {
                return match top.parent() {
                    Some(base) => Some(
                        BuildContext {
                            current_build_root: root,
                            current_target_root: base,
                            target_triple: Some(triple.clone()),
                        },
                    ),
                    None => None,
                };
            }
        }
        Some(
            BuildContext {
                current_build_root: root,
                current_target_root: top,
                target_triple: None,
            },
        )
    }

    /// Whether this is a coverage build.
    pub fn is_llvm_cov_build(&self) -> (is: bool)
        ensures
            is == self@.is_llvm_cov(),
    {
        self.current_target_root.is_named(LLVM_COV_TARGET_DIR)
    }

    /// Whether this is a build under Miri.
    pub fn is_miri_build(&self) -> (is: bool)
        ensures
            is == self@.is_miri(),
    {
        if self.current_target_root.is_named(MIRI_TARGET_DIR) {
            return true;
        }
        self.is_miri_build_with_target()
    }

    /// Whether this is a build under Miri with one more directory below the one of Miri.
    pub fn is_miri_build_with_target(&self) -> (is: bool)
        ensures
            is == self@.is_miri_with_target(),
    {
        match self.current_target_root.parent() {
            Some(up) => up.is_named(MIRI_TARGET_DIR),
            None => false,
        }
    }

    /// Whether this is a build for coverage or under Miri.
    pub fn is_special_build(&self) -> (is: bool)
        ensures
            is == self@.is_special(),
    {
        self.is_llvm_cov_build() || self.is_miri_build()
    }

    /// Whether this build uses the release profile.
    pub fn is_release(&self) -> (is: bool)
        ensures
            is == self@.is_release(),
    {
        match self.current_build_root.parent() {
            Some(profile) => profile.is_named(RELEASE_DIR),
            None => false,
        }
    }

    fn is_in_project(&self) -> (is: bool)
        ensures
            is == self@.is_in_project(),
    {
        match self.current_target_root.file_name() {
            Some(name) => name.is_text(TARGET_DIR) || is_custom_target(name),
            None => false,
        }
    }

    /// The build root to search first: the current one or, for a special build inside the target
    /// directory of Cargo, the one where plain Cargo builds of the same kind leave their output.
    pub fn cargo_build_root(&self) -> (root: HostPath)
        ensures
            root@ == self@.cargo_root(),
    {
        if !self.is_special_build() || self.is_in_project() {
            return self.current_build_root.clone();
        }
        let outer = match self.current_target_root.parent() {
            Some(up) => if self.is_miri_build_with_target() {
                match up.parent() {
                    Some(upper) => upper,
                    None => self.current_target_root.clone(),
                }
            } else {
                up
            },
            None => self.current_target_root.clone(),
        };
        let directory = match &self.target_triple {
            Some(triple) => outer.child(triple.as_str()),
            None => outer,
        };
        directory.child(profile_dir(self.is_release())).child(BUILD_DIR)
    }
}

/// Whether a build root belongs to a profile, of whatever name, in the directory.
pub open spec fn is_root_in(build_root: PathModel, directory: PathModel) -> bool {
    &&& is_named(build_root, BUILD_DIR@)
    &&& parent(build_root) matches Some(profile) && parent(profile) == Some(directory)
}

/// Whether a build root is the one of the debug or the release profile in the directory.
pub open spec fn is_profile_root(build_root: PathModel, directory: PathModel) -> bool {
    ||| build_root == build_root_in(directory, DEBUG_DIR@)
    ||| build_root == build_root_in(directory, RELEASE_DIR@)
}

/// The build root of a profile belongs to the directory that it was made for.
pub proof fn a_build_root_is_in_its_directory(directory: PathModel, profile: Seq<char>)
    ensures
        is_root_in(build_root_in(directory, profile), directory),
{
    assert(build_root_in(directory, profile).drop_last() =~= child(directory, profile));
    assert(child(directory, profile).drop_last() =~= directory);
}

/// Whatever the layout, the output of a package leads to the build root that it lies in: the
/// package and its hash may share a directory or have one each.
pub proof fn both_layouts_lead_to_one_context(
    directory: PathModel,
    profile: Seq<char>,
    package_and_hash: NameModel,
    package: NameModel,
    hash: NameModel,
    output: NameModel,
    target: Option<Seq<char>>,
)
    requires
        package_and_hash != NameModel::Text(BUILD_DIR@),
        package != NameModel::Text(BUILD_DIR@),
        hash != NameModel::Text(BUILD_DIR@),
    ensures
        ({
            let root = build_root_in(directory, profile);
            let joint = entry(entry(root, package_and_hash), output);
            let split = entry(entry(entry(root, package), hash), output);
            &&& context_of(joint, target) == context_at(root, directory, target)
            &&& context_of(split, target) == context_at(root, directory, target)
        }),
{
    let root = build_root_in(directory, profile);
    let holds = named(BUILD_DIR@);
    assert(holds(root));
    assert(root.drop_last() =~= child(directory, profile));
    assert(child(directory, profile).drop_last() =~= directory);
    let joint = entry(root, package_and_hash);
    assert(joint.drop_last() =~= root);
    assert(entry(joint, output).drop_last() =~= joint);
    assert(!holds(joint));
    assert(nearest(joint, holds) == nearest(root, holds));
    let outer = entry(root, package);
    let split = entry(outer, hash);
    assert(outer.drop_last() =~= root);
    assert(split.drop_last() =~= outer);
    assert(entry(split, output).drop_last() =~= split);
    assert(!holds(outer) && !holds(split));
    assert(nearest(outer, holds) == nearest(root, holds));
    assert(nearest(split, holds) == nearest(outer, holds));
}

/// The directories of a context fit together: the build root is a directory named `build` above
/// the output, and belongs to a profile in the directory for the triple of the target directory.
pub proof fn a_context_fits_together(out_dir: PathModel, target: Option<Seq<char>>)
    ensures
        context_of(out_dir, target) matches Some(context) ==> {
            &&& is_ancestor(context.current_build_root, out_dir)
            &&& parent(out_dir) matches Some(package) && is_within(
                package,
                context.current_build_root,
            )
            &&& is_root_in(
                context.current_build_root,
                context.triple_dir(context.current_target_root),
            )
            &&& context.target_triple is Some ==> context.target_triple == target
        },
{
    if let Some(context) = context_of(out_dir, target) {
        let package = parent(out_dir)->0;
        let root = context.current_build_root;
        nearest_is_the_closest_ancestor(package, named(BUILD_DIR@));
        assert(root =~= out_dir.subrange(0, root.len() as int));
        assert forall|i: int| root.len() <= i < out_dir.len() implies is_removable(
            #[trigger] out_dir[i],
        ) by {
            if i < package.len() {
                assert(is_removable(package[i]));
            }
        }
        let top = parent(parent(root)->0)->0;
        if context.target_triple is Some {
            assert(top =~= child(context.current_target_root, target->0));
        }
    }
}

/// A plain build searches where it is, whatever the directories above its target directory are
/// named. A special one inside the target directory of Cargo searches in that, where plain builds
/// for the same triple and profile are.
pub proof fn a_special_build_is_served_by_plain_ones(context: ContextModel)
    ensures
        !context.is_special() || context.is_in_project() ==> context.cargo_root()
            == context.current_build_root,
        context.is_nested() ==> {
            let outer = context.outer_target_root();
            &&& context.cargo_root() == build_root_in(context.triple_dir(outer), context.profile())
            &&& is_within(context.current_target_root, outer)
            &&& outer.len() < context.current_target_root.len()
        },
{
    let own = context.current_target_root;
    if context.is_special() {
        let up = parent(own)->0;
        assert(up =~= own.subrange(0, up.len() as int));
        if context.is_miri_with_target() {
            let upper = parent(up)->0;
            assert(upper =~= own.subrange(0, upper.len() as int));
        }
    }
}

/// A build for coverage or under Miri searches exactly where a plain build of the same target
/// directory, triple and profile leaves its output. Below the directory of Miri a target directory
/// may have any name that is not one of Cargo's.
pub proof fn a_special_build_searches_where_a_plain_one_builds(
    plain: ContextModel,
    special: ContextModel,
    release: bool,
    name: NameModel,
)
    requires
        !plain.is_nested(),
        plain.current_build_root == build_root_in(
            plain.triple_dir(plain.current_target_root),
            profile_name(release),
        ),
        special.current_build_root == build_root_in(
            special.triple_dir(special.current_target_root),
            profile_name(release),
        ),
        special.target_triple == plain.target_triple,
        ({
            let directory = plain.current_target_root;
            ||| special.current_target_root == child(directory, LLVM_COV_TARGET_DIR@)
            ||| special.current_target_root == child(directory, MIRI_TARGET_DIR@)
            ||| special.current_target_root == entry(child(directory, MIRI_TARGET_DIR@), name)
                && !is_target_name(name)
        }),
    ensures
        special.cargo_root() == plain.cargo_root(),
        special.cargo_root() == plain.current_build_root,
{
    reveal_strlit("llvm-cov-target");
    reveal_strlit("miri");
    reveal_strlit("target");
    reveal_strlit("target-");
    reveal_strlit("debug");
    reveal_strlit("release");
    assert(LLVM_COV_TARGET_DIR@[0] != TARGET_DIR_PREFIX@[0]);
    assert(LLVM_COV_TARGET_DIR@[0] != TARGET_DIR@[0]);
    assert(MIRI_TARGET_DIR@[0] != TARGET_DIR_PREFIX@[0]);
    assert(MIRI_TARGET_DIR@[0] != TARGET_DIR@[0]);
    assert(DEBUG_DIR@.len() != RELEASE_DIR@.len());
    let directory = plain.current_target_root;
    let miri = child(directory, MIRI_TARGET_DIR@);
    assert(miri.drop_last() =~= directory);
    assert(child(directory, LLVM_COV_TARGET_DIR@).drop_last() =~= directory);
    assert(entry(miri, name).drop_last() =~= miri);
    assert(special.is_nested());
    assert(special.outer_target_root() == directory);
    let dir = special.triple_dir(special.current_target_root);
    assert(special.current_build_root.drop_last() =~= child(dir, profile_name(release)));
    assert(special.is_release() == release);
}

/// The sibling of a sibling is the build root itself: the profiles see each other.
pub proof fn siblings_come_in_pairs(directory: PathModel, release: bool)
    ensures
        ({
            let root = build_root_in(directory, profile_name(release));
            let sibling = build_root_in(directory, profile_name(!release));
            &&& sibling_of(root, release) == Some(sibling)
            &&& sibling_of(sibling, !release) == Some(root)
            &&& sibling != root
        }),
{
    reveal_strlit("debug");
    reveal_strlit("release");
    let root = build_root_in(directory, profile_name(release));
    let sibling = build_root_in(directory, profile_name(!release));
    assert(root.drop_last().drop_last() =~= directory);
    assert(sibling.drop_last().drop_last() =~= directory);
    assert(root[directory.len() as int] == ComponentModel::Normal(
        NameModel::Text(profile_name(release)),
    ));
    assert(sibling[directory.len() as int] == ComponentModel::Normal(
        NameModel::Text(profile_name(!release)),
    ));
    assert(DEBUG_DIR@.len() != RELEASE_DIR@.len());
}

/// Where the output directory leads. Let its last component `build`, the output itself left out,
/// be at some place, with nothing but names and dots after it. The components up to there are the
/// build root; those up to two before are the target directory, or up to three before where that
/// component is the triple that is built for. Without such a place there is no context.
pub proof fn a_context_is_read_off_the_components(
    out_dir: PathModel,
    target: Option<Seq<char>>,
    k: int,
)
    requires
        0 <= k < out_dir.len() - 1,
        out_dir[k] == ComponentModel::Normal(NameModel::Text("build"@)),
        forall|j: int|
            k < j < out_dir.len() ==> !(#[trigger] out_dir[j] is RootDir) && !(out_dir[j] is Prefix),
        forall|j: int|
            k < j < out_dir.len() - 1 ==> #[trigger] out_dir[j] != ComponentModel::Normal(
                NameModel::Text("build"@),
            ),
    ensures
        k == 0 || out_dir[k - 1] is RootDir || out_dir[k - 1] is Prefix ==> context_of(
            out_dir,
            target,
        ) is None,
        k > 0 && !(out_dir[k - 1] is RootDir) && !(out_dir[k - 1] is Prefix) ==> {
            let crossed = target is Some && k > 1 && out_dir[k - 2] == ComponentModel::Normal(
                NameModel::Text(target->0),
            );
            &&& context_of(out_dir, target) matches Some(context)
            &&& context.current_build_root == out_dir.take(k + 1)
            &&& crossed ==> context.current_target_root == out_dir.take(k - 2)
                && context.target_triple == target
            &&& !crossed ==> context.current_target_root == out_dir.take(k - 1)
                && context.target_triple is None
        },
{
    let package = out_dir.drop_last();
    let root = out_dir.take(k + 1);
    let holds = named(BUILD_DIR@);
    assert(out_dir.last() == out_dir[out_dir.len() - 1]);
    the_nearest_is_the_last(package, "build"@, k);
    assert(package.take(k + 1) =~= root);
    assert(root.last() == out_dir[k]);
    assert(root.drop_last() =~= out_dir.take(k));
    if k > 0 {
        assert(out_dir.take(k).last() == out_dir[k - 1]);
        assert(out_dir.take(k).drop_last() =~= out_dir.take(k - 1));
        if k > 1 {
            assert(out_dir.take(k - 1).last() == out_dir[k - 2]);
            assert(out_dir.take(k - 1).drop_last() =~= out_dir.take(k - 2));
        }
    }
}

/// The nearest directory of a name is found at the last component that is that name, if no root and
/// no prefix follows it; where no component is that name, none is found.
pub proof fn the_nearest_is_the_last(path: PathModel, name: Seq<char>, k: int)
    requires
        -1 <= k < path.len(),
        forall|j: int|
            k < j < path.len() ==> #[trigger] path[j] != ComponentModel::Normal(
                NameModel::Text(name),
            ),
    ensures
        k >= 0 && path[k] == ComponentModel::Normal(NameModel::Text(name)) && (forall|j: int|
            k < j < path.len() ==> !(#[trigger] path[j] is RootDir) && !(path[j] is Prefix))
            ==> nearest(path, named(name)) == Some(path.take(k + 1)),
        k == -1 ==> nearest(path, named(name)) is None,
    decreases path.len(),
{
    let holds = named(name);
    if path.len() > 0 {
        assert(path.last() == path[path.len() - 1]);
        if k == path.len() - 1 {
            assert(path.take(k + 1) =~= path);
        } else {
            let up = path.drop_last();
            assert(!holds(path));
            the_nearest_is_the_last(up, name, k);
            assert(up.take(k + 1) =~= path.take(k + 1));
        }
    }
}

/// Where no directory above the output is named `build`, or the root or a prefix stands between it
/// and the output, there is no context.
pub proof fn without_a_build_directory_there_is_no_context(
    out_dir: PathModel,
    target: Option<Seq<char>>,
)
    requires
        forall|k: int|
            0 <= k < out_dir.len() - 1 && #[trigger] out_dir[k] == ComponentModel::Normal(
                NameModel::Text("build"@),
            ) ==> exists|j: int|
                k < j < out_dir.len() && (#[trigger] out_dir[j] is RootDir || out_dir[j] is Prefix),
    ensures
        context_of(out_dir, target) is None,
{
    if parent(out_dir) is Some {
        let package = out_dir.drop_last();
        let holds = named(BUILD_DIR@);
        nearest_is_the_closest_ancestor(package, holds);
        if let Some(root) = nearest(package, holds) {
            let k = root.len() - 1;
            assert(root[k] == package[k]);
            assert(out_dir[k] == root.last());
            let j = choose|j: int|
                k < j < out_dir.len() && (#[trigger] out_dir[j] is RootDir || out_dir[j] is Prefix);
            if j < package.len() {
                assert(is_removable(package[j]));
            } else {
                assert(out_dir.last() == out_dir[j]);
            }
        }
    }
}

/// What kind of build a context is, told by the names of its directories: for coverage by that of
/// the target directory, under Miri by that or the one above, release by that above the build root.
pub proof fn the_kind_of_a_build_is_told_by_names(context: ContextModel, up: PathModel)
    ensures
        ({
            let own = context.current_target_root;
            let miri = ComponentModel::Normal(NameModel::Text("miri"@));
            let coverage = ComponentModel::Normal(NameModel::Text("llvm-cov-target"@));
            &&& context.is_llvm_cov() <==> own.len() > 0 && own.last() == coverage
            &&& parent(own) == Some(up) ==> (context.is_miri_with_target() <==> up.len() > 0
                && up.last() == miri)
            &&& parent(own) is None ==> !context.is_miri_with_target()
            &&& context.is_miri() <==> own.len() > 0 && own.last() == miri
                || context.is_miri_with_target()
            &&& context.is_special() <==> context.is_llvm_cov() || context.is_miri()
        }),
        ({
            let root = context.current_build_root;
            let release = ComponentModel::Normal(NameModel::Text("release"@));
            &&& parent(root) == Some(up) ==> (context.is_release() <==> up.len() > 0 && up.last()
                == release)
            &&& parent(root) is None ==> !context.is_release()
            &&& context.profile() == (if context.is_release() {
                "release"@
            } else {
                "debug"@
            })
            &&& context.other_profile() == (if context.is_release() {
                "debug"@
            } else {
                "release"@
            })
        }),
{
}

/// The build root of the other profile, whichever this one is: beside the directory of a profile
/// lies that of the other, `debug` beside `release` and `release` beside anything else.
pub proof fn each_profile_has_a_sibling(
    directory: PathModel,
    profile: ComponentModel,
    last: ComponentModel,
    release: bool,
)
    ensures
        is_removable(profile) && is_removable(last) ==> sibling_of(
            directory.push(profile).push(last),
            release,
        ) == Some(
            directory.push(
                ComponentModel::Normal(
                    NameModel::Text(
                        if release {
                            "debug"@
                        } else {
                            "release"@
                        },
                    ),
                ),
            ).push(ComponentModel::Normal(NameModel::Text("build"@))),
        ),
{
    assert(directory.push(profile).push(last).drop_last() =~= directory.push(profile));
    assert(directory.push(profile).drop_last() =~= directory);
}

/// Where a plain build of some target directory searches first: where it is. Where a build for
/// coverage, or one under Miri, of that target directory searches first: in the directory of the
/// same triple and profile right in the target directory.
pub proof fn the_first_root_to_search(
    context: ContextModel,
    directory: PathModel,
    name: NameModel,
)
    ensures
        ({
            let own = context.current_target_root;
            let below = |text: Seq<char>| ComponentModel::Normal(NameModel::Text(text));
            let coverage = own == directory.push(below("llvm-cov-target"@));
            let miri = own == directory.push(below("miri"@));
            let deeper = own == directory.push(below("miri"@)).push(ComponentModel::Normal(name));
            let cargo_name = name == NameModel::Text("target"@) || (name matches NameModel::Text(
                text,
            ) && exists|rest: Seq<char>| text == #[trigger] ("target-"@ + rest));
            let tripled = match context.target_triple {
                Some(triple) => directory.push(below(triple)),
                None => directory,
            };
            let expected = tripled.push(
                below(
                    if context.is_release() {
                        "release"@
                    } else {
                        "debug"@
                    },
                ),
            ).push(below("build"@));
            // The directory above is itself no directory of Miri.
            let outermost = directory.len() == 0 || directory.last() != below("miri"@);
            &&& (coverage || miri) && outermost ==> context.cargo_root() == expected
            &&& deeper && !cargo_name ==> context.cargo_root() == expected
            &&& deeper && cargo_name ==> context.cargo_root() == context.current_build_root
            &&& !context.is_special() ==> context.cargo_root() == context.current_build_root
        }),
{
    reveal_strlit("llvm-cov-target");
    reveal_strlit("miri");
    reveal_strlit("target");
    reveal_strlit("target-");
    assert(LLVM_COV_TARGET_DIR@[0] != TARGET_DIR_PREFIX@[0]);
    assert(LLVM_COV_TARGET_DIR@[0] != TARGET_DIR@[0]);
    assert(MIRI_TARGET_DIR@[0] != TARGET_DIR_PREFIX@[0]);
    assert(MIRI_TARGET_DIR@[0] != TARGET_DIR@[0]);
    let miri = child(directory, MIRI_TARGET_DIR@);
    assert(miri.drop_last() =~= directory);
    assert(child(directory, LLVM_COV_TARGET_DIR@).drop_last() =~= directory);
    assert(entry(miri, name).drop_last() =~= miri);
    a_target_name_is_target_and_more(name);
}

/// A name is one of a target directory exactly where it is `target`, or `target-` and anything.
pub proof fn a_target_name_is_target_and_more(name: NameModel)
    ensures
        is_custom_target_name(name) <==> (name matches NameModel::Text(text) && exists|
            rest: Seq<char>,
        | text == #[trigger] ("target-"@ + rest)),
        is_target_name(name) <==> name == NameModel::Text("target"@) || is_custom_target_name(name),
{
    if let NameModel::Text(text) = name {
        if is_custom_target_name(name) {
            let rest = text.skip("target-"@.len() as int);
            assert(text =~= "target-"@ + rest);
        }
        if exists|rest: Seq<char>| text == #[trigger] ("target-"@ + rest) {
            let rest = choose|rest: Seq<char>| text == #[trigger] ("target-"@ + rest);
            assert("target-"@ =~= text.subrange(0, "target-"@.len() as int));
        }
    }
}

/// The directory for the triple of a context: the one of that name, or the target directory itself.
pub proof fn a_triple_has_a_directory_of_its_name(context: ContextModel, target_root: PathModel)
    ensures
        context.target_triple matches Some(triple) ==> context.triple_dir(target_root)
            == target_root.push(ComponentModel::Normal(NameModel::Text(triple))),
        context.target_triple is None ==> context.triple_dir(target_root) == target_root,
        forall|profile: Seq<char>| #[trigger]
            build_root_in(target_root, profile) == target_root.push(
                ComponentModel::Normal(NameModel::Text(profile)),
            ).push(ComponentModel::Normal(NameModel::Text("build"@))),
{
}

} // verus!
