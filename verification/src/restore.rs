//! Taking a cached build over into the output directory of the running build.
use vstd::prelude::*;

use crate::cache::{build_in, CacheModel, CachedBuild, INCLUDE_DIR_NAME, LIB_DIR_NAME};
use crate::cache::{KTX_SOFTWARE_VERSION, KTX_SOURCE_PREFIX};
use crate::copy::{copy_directory, CopyWalk, WalkModel};
use crate::path::{child, is_within};
use crate::path::{ComponentModel, HostPath, NameModel, PathModel};

verus! {

/// What an effect does.
pub enum EffectModel {
    RemoveTree(PathModel),
    RemoveFile(PathModel),
    CopyTree(PathModel, PathModel),
    CheckDir(PathModel),
    CopyFile(PathModel, PathModel),
}

/// Something to do on disk. Its outcome is whether it succeeded or, for the check of a directory,
/// whether that is there.
#[derive(Debug)]
pub enum Effect {
    /// Remove the directory and everything in it.
    RemoveTree(HostPath),
    /// Remove the file.
    RemoveFile(HostPath),
    /// Copy everything in the first directory to the second.
    CopyTree(HostPath, HostPath),
    /// Check whether the path leads to a directory.
    CheckDir(HostPath),
    /// Copy the first file to the second.
    CopyFile(HostPath, HostPath),
}

impl View for Effect {
    type V = EffectModel;

    open spec fn view(&self) -> EffectModel {
        match self {
            Effect::RemoveTree(path) => EffectModel::RemoveTree(path@),
            Effect::RemoveFile(path) => EffectModel::RemoveFile(path@),
            Effect::CopyTree(from, to) => EffectModel::CopyTree(from@, to@),
            Effect::CheckDir(path) => EffectModel::CheckDir(path@),
            Effect::CopyFile(from, to) => EffectModel::CopyFile(from@, to@),
        }
    }
}

impl Effect {
    /// The walk that performs this effect, where it is the copy of a directory.
    pub fn copy_walk(&self) -> (walk: Option<CopyWalk>)
        ensures
            match self@ {
                EffectModel::CopyTree(from, to) => walk matches Some(walk) && walk@
                    == WalkModel::start(from, to),
                _ => walk is None,
            },
    {
        match self {
            Effect::CopyTree(from, to) => Some(copy_directory(from, to)),
            _ => None,
        }
    }
}

/// The next thing to do, or the result.
#[derive(Debug)]
pub enum RestoreStep {
    Perform(Effect),
    Finished(bool),
}

/// What a step says.
pub enum StepModel {
    Perform(EffectModel),
    Finished(bool),
}

impl View for RestoreStep {
    type V = StepModel;

    open spec fn view(&self) -> StepModel {
        match self {
            RestoreStep::Perform(effect) => StepModel::Perform(effect@),
            RestoreStep::Finished(restored) => StepModel::Finished(*restored),
        }
    }
}

/// The removal of everything that a restored build consists of.
pub open spec fn clearing(target: PathModel) -> Seq<EffectModel> {
    seq![
        EffectModel::RemoveTree(build_in(target).ktx_build_dir),
        EffectModel::RemoveTree(build_in(target).ktx_source_dir),
        EffectModel::RemoveFile(build_in(target).bindings_file),
    ]
}

/// The copy of one directory of the build tree.
pub open spec fn copy_of_part(cache: CacheModel, target: PathModel, part: Seq<char>) -> EffectModel {
    EffectModel::CopyTree(
        child(cache.ktx_build_dir, part),
        child(build_in(target).ktx_build_dir, part),
    )
}

/// What is done first: everything stale is cleared away, the libraries are copied, and it is
/// checked whether the build tree has headers.
pub open spec fn opening(cache: CacheModel, target: PathModel) -> Seq<EffectModel> {
    clearing(target) + seq![
        copy_of_part(cache, target, LIB_DIR_NAME@),
        EffectModel::CheckDir(child(cache.ktx_build_dir, INCLUDE_DIR_NAME@)),
    ]
}

/// What is done up to the last copy. Only the libraries, the headers where there are any, and the
/// bindings are taken.
pub open spec fn copying(cache: CacheModel, target: PathModel, headers: bool) -> Seq<EffectModel> {
    opening(cache, target) + (if headers {
        seq![copy_of_part(cache, target, INCLUDE_DIR_NAME@)]
    } else {
        Seq::empty()
    }) + seq![EffectModel::CopyFile(cache.bindings_file, build_in(target).bindings_file)]
}

/// Whether the outcomes say that the build tree has headers.
pub open spec fn has_headers(outcomes: Seq<bool>) -> bool {
    outcomes[4]
}

/// How many effects there are up to the last copy.
pub open spec fn copying_len(headers: bool) -> nat {
    if headers {
        7
    } else {
        6
    }
}

/// Whether the libraries, the headers where there are any, and the bindings were all copied.
pub open spec fn is_complete(outcomes: Seq<bool>) -> bool {
    &&& outcomes[3]
    &&& has_headers(outcomes) ==> outcomes[5]
    &&& outcomes[copying_len(has_headers(outcomes)) - 1]
}

/// Whether an effect copies something.
pub open spec fn is_copy(effect: EffectModel) -> bool {
    effect is CopyTree || effect is CopyFile
}

/// What follows after effects with these outcomes: the next effect as long as there is one; the
/// removal of everything if a copy failed; then the result.
pub open spec fn restore_step(cache: CacheModel, target: PathModel, outcomes: Seq<bool>) -> StepModel {
    let done = outcomes.len() as int;
    if done < opening(cache, target).len() {
        StepModel::Perform(opening(cache, target)[done])
    } else {
        let plan = copying(cache, target, has_headers(outcomes));
        if done < plan.len() {
            StepModel::Perform(plan[done])
        } else if is_complete(outcomes) {
            StepModel::Finished(true)
        } else if done < plan.len() + clearing(target).len() {
            StepModel::Perform(clearing(target)[done - plan.len()])
        } else {
            StepModel::Finished(false)
        }
    }
}

/// The path that an effect changes something at or below, if it changes anything.
pub open spec fn changed_by(effect: EffectModel) -> Option<PathModel> {
    match effect {
        EffectModel::RemoveTree(path) => Some(path),
        EffectModel::RemoveFile(path) => Some(path),
        EffectModel::CopyTree(_, to) => Some(to),
        EffectModel::CheckDir(_) => None,
        EffectModel::CopyFile(_, to) => Some(to),
    }
}

/// Whether the outcomes are those of effects that were each the next one to perform.
pub open spec fn is_history(cache: CacheModel, target: PathModel, outcomes: Seq<bool>) -> bool {
    forall|i: int|
        0 <= i < outcomes.len() ==> #[trigger] restore_step(
            cache,
            target,
            outcomes.take(i),
        ) is Perform
}

/// A restore fails only where a copy did, and it has then, as its last three effects, removed
/// everything that it may have written.
pub proof fn a_failed_restore_is_rolled_back(
    cache: CacheModel,
    target: PathModel,
    outcomes: Seq<bool>,
)
    requires
        is_history(cache, target, outcomes),
        restore_step(cache, target, outcomes) == StepModel::Finished(false),
    ensures
        !is_complete(outcomes),
        outcomes.len() == copying_len(has_headers(outcomes)) + clearing(target).len(),
        exists|i: int|
            0 <= i < copying(cache, target, has_headers(outcomes)).len() && is_copy(
                #[trigger] copying(cache, target, has_headers(outcomes))[i],
            ) && !outcomes[i],
        forall|i: int|
            0 <= i < clearing(target).len() ==> restore_step(
                cache,
                target,
                outcomes.take(outcomes.len() - clearing(target).len() + i),
            ) == StepModel::Perform(#[trigger] clearing(target)[i]),
{
    let len = copying_len(has_headers(outcomes)) as int;
    let plan = copying(cache, target, has_headers(outcomes));
    assert(plan.len() == len);
    let failed: int = if !outcomes[3] {
        3
    } else if !outcomes[len - 1] {
        len - 1
    } else {
        5
    };
    assert(is_copy(plan[failed]) && !outcomes[failed]);
    if outcomes.len() > len + 3 {
        let early = outcomes.take(len + 3);
        assert(has_headers(early) == has_headers(outcomes));
        assert(is_complete(early) == is_complete(outcomes));
        assert(restore_step(cache, target, early) == StepModel::Finished(false));
        assert(false);
    }
    assert forall|i: int| 0 <= i < clearing(target).len() implies restore_step(
        cache,
        target,
        outcomes.take(outcomes.len() - clearing(target).len() + i),
    ) == StepModel::Perform(#[trigger] clearing(target)[i]) by {
        let before = outcomes.take(len + i);
        assert(has_headers(before) == has_headers(outcomes));
        assert(is_complete(before) == is_complete(outcomes));
    }
}

/// A restore that succeeds has performed exactly the planned effects, every copy among them with
/// success, and removes nothing after that.
pub proof fn a_finished_restore_is_complete(
    cache: CacheModel,
    target: PathModel,
    outcomes: Seq<bool>,
)
    requires
        is_history(cache, target, outcomes),
        restore_step(cache, target, outcomes) == StepModel::Finished(true),
    ensures
        is_complete(outcomes),
        outcomes.len() == copying(cache, target, has_headers(outcomes)).len(),
        forall|i: int|
            0 <= i < outcomes.len() && is_copy(
                #[trigger] copying(cache, target, has_headers(outcomes))[i],
            ) ==> outcomes[i],
        forall|i: int|
            0 <= i < outcomes.len() ==> restore_step(cache, target, outcomes.take(i))
                == StepModel::Perform(
                #[trigger] copying(cache, target, has_headers(outcomes))[i],
            ),
{
    let plan = copying(cache, target, has_headers(outcomes));
    let len = copying_len(has_headers(outcomes)) as int;
    assert(plan.len() == len);
    if outcomes.len() > len {
        let early = outcomes.take(len);
        assert(has_headers(early) == has_headers(outcomes));
        assert(is_complete(early) == is_complete(outcomes));
        assert(restore_step(cache, target, early) == StepModel::Finished(true));
        assert(false);
    }
    assert forall|i: int| 0 <= i < outcomes.len() implies restore_step(
        cache,
        target,
        outcomes.take(i),
    ) == StepModel::Perform(#[trigger] plan[i]) by {
        if i < opening(cache, target).len() {
            assert(plan[i] == opening(cache, target)[i]);
        } else {
            assert(has_headers(outcomes.take(i)) == has_headers(outcomes));
        }
    }
}

/// Nothing is changed but the three parts of a build in the directory that is restored to.
pub proof fn a_restore_changes_only_its_target(
    cache: CacheModel,
    target: PathModel,
    outcomes: Seq<bool>,
)
    ensures
        restore_step(cache, target, outcomes) matches StepModel::Perform(effect) ==> (changed_by(
            effect,
        ) matches Some(path) ==> is_within(path, build_in(target).ktx_build_dir) || path
            == build_in(target).ktx_source_dir || path == build_in(target).bindings_file),
{
    let own = build_in(target).ktx_build_dir;
    assert(own =~= own.subrange(0, own.len() as int));
    let lib = child(own, LIB_DIR_NAME@);
    assert(own =~= lib.subrange(0, own.len() as int));
    let include_dir = child(own, INCLUDE_DIR_NAME@);
    assert(own =~= include_dir.subrange(0, own.len() as int));
}

/// Nothing is copied but what a later build needs: of the build tree the libraries and the
/// headers, beside that the bindings, each to the same place in the target.
pub proof fn only_what_is_needed_is_copied(
    cache: CacheModel,
    target: PathModel,
    outcomes: Seq<bool>,
)
    ensures
        restore_step(cache, target, outcomes) matches StepModel::Perform(effect) ==> match effect {
            EffectModel::CopyTree(_, _) => {
                ||| effect == copy_of_part(cache, target, LIB_DIR_NAME@)
                ||| effect == copy_of_part(cache, target, INCLUDE_DIR_NAME@)
            },
            EffectModel::CopyFile(from, to) => {
                from == cache.bindings_file && to == build_in(target).bindings_file
            },
            _ => true,
        },
{
}

/// A restore is finished after ten effects at the latest.
pub proof fn a_restore_comes_to_an_end(cache: CacheModel, target: PathModel, outcomes: Seq<bool>)
    requires
        outcomes.len() >= 10,
    ensures
        restore_step(cache, target, outcomes) is Finished,
{
}

fn clearing_effect(target: &HostPath, i: usize) -> (effect: Effect)
    requires
        i < 3,
    ensures
        effect@ == clearing(target@)[i as int],
{
    let own = CachedBuild::in_output_dir(target);
    if i == 0 {
        Effect::RemoveTree(own.ktx_build_dir)
    } else if i == 1 {
        Effect::RemoveTree(own.ktx_source_dir)
    } else {
        Effect::RemoveFile(own.bindings_file)
    }
}

impl CachedBuild {
    fn copy_part(&self, target: &CachedBuild, part: &str) -> (effect: Effect)
        ensures
            effect@ == EffectModel::CopyTree(
                child(self@.ktx_build_dir, part@),
                child(target@.ktx_build_dir, part@),
            ),
    {
        Effect::CopyTree(self.ktx_build_dir.child(part), target.ktx_build_dir.child(part))
    }

    /// The next step in taking this build over into the directory `target`, after effects with
    /// these outcomes, in order.
    pub fn restore_to(&self, target: &HostPath, outcomes: &Vec<bool>) -> (step: RestoreStep)
        ensures
            step@ == restore_step(self@, target@, outcomes@),
    {
        let own = CachedBuild::in_output_dir(target);
        let done = outcomes.len();
        if done < 3 {
            return RestoreStep::Perform(clearing_effect(target, done));
        }
        if done == 3 {
            return RestoreStep::Perform(self.copy_part(&own, LIB_DIR_NAME));
        }
        if done == 4 {
            return RestoreStep::Perform(Effect::CheckDir(self.ktx_build_dir.child(INCLUDE_DIR_NAME)));
        }
        let headers = outcomes[4];
        if headers && done == 5 {
            return RestoreStep::Perform(self.copy_part(&own, INCLUDE_DIR_NAME));
        }
        let len: usize = if headers {
            7
        } else {
            6
        };
        if done == len - 1 {
            return RestoreStep::Perform(
                Effect::CopyFile(self.bindings_file.clone(), own.bindings_file),
            );
        }
        if outcomes[3] && (!headers || outcomes[5]) && outcomes[len - 1] {
            return RestoreStep::Finished(true);
        }
        if done < len + 3 {
            return RestoreStep::Perform(clearing_effect(target, done - len));
        }
        RestoreStep::Finished(false)
    }
}

/// What a restore does, effect by effect: it removes the three parts of a stale build, copies the
/// libraries, checks for headers and copies those that are there, then copies the bindings. If every
/// copy succeeded it is finished with success. If not, the three parts are removed again, and it is
/// finished without.
pub proof fn a_restore_copies_the_artifacts_or_removes_them(
    cache: CacheModel,
    target: PathModel,
    outcomes: Seq<bool>,
)
    ensures
        ({
            let at = |path: PathModel, name: Seq<char>|
                path.push(ComponentModel::Normal(NameModel::Text(name)));
            let own_build = at(target, "KTX-Software-build"@);
            let own_bindings = at(target, "bindings.rs"@);
            let removal = seq![
                EffectModel::RemoveTree(own_build),
                EffectModel::RemoveTree(at(target, "KTX-Software-4.4.0"@)),
                EffectModel::RemoveFile(own_bindings),
            ];
            let first = removal + seq![
                EffectModel::CopyTree(at(cache.ktx_build_dir, "lib"@), at(own_build, "lib"@)),
                EffectModel::CheckDir(at(cache.ktx_build_dir, "include"@)),
            ];
            let headers: Seq<EffectModel> = if outcomes.len() > 4 && outcomes[4] {
                seq![
                    EffectModel::CopyTree(
                        at(cache.ktx_build_dir, "include"@),
                        at(own_build, "include"@),
                    ),
                ]
            } else {
                Seq::empty()
            };
            let plan = first + headers + seq![
                EffectModel::CopyFile(cache.bindings_file, own_bindings),
            ];
            let n = outcomes.len() as int;
            let copied = forall|i: int|
                0 <= i < plan.len() && (plan[i] is CopyTree || plan[i] is CopyFile)
                    ==> #[trigger] outcomes[i];
            let step = restore_step(cache, target, outcomes);
            &&& n < first.len() ==> step == StepModel::Perform(first[n])
            &&& first.len() <= n < plan.len() ==> step == StepModel::Perform(plan[n])
            &&& n >= plan.len() && copied ==> step == StepModel::Finished(true)
            &&& plan.len() <= n < plan.len() + removal.len() && !copied ==> step
                == StepModel::Perform(removal[n - plan.len()])
            &&& n >= plan.len() + removal.len() && !copied ==> step == StepModel::Finished(false)
        }),
{
    reveal_strlit("KTX-Software-");
    reveal_strlit("4.4.0");
    reveal_strlit("KTX-Software-4.4.0");
    assert(KTX_SOURCE_PREFIX@ + KTX_SOFTWARE_VERSION@ =~= "KTX-Software-4.4.0"@);
    let at = |path: PathModel, name: Seq<char>|
        path.push(ComponentModel::Normal(NameModel::Text(name)));
    let own_build = at(target, "KTX-Software-build"@);
    let own_bindings = at(target, "bindings.rs"@);
    let removal = seq![
        EffectModel::RemoveTree(own_build),
        EffectModel::RemoveTree(at(target, "KTX-Software-4.4.0"@)),
        EffectModel::RemoveFile(own_bindings),
    ];
    let first = removal + seq![
        EffectModel::CopyTree(at(cache.ktx_build_dir, "lib"@), at(own_build, "lib"@)),
        EffectModel::CheckDir(at(cache.ktx_build_dir, "include"@)),
    ];
    let headers: Seq<EffectModel> = if outcomes.len() > 4 && outcomes[4] {
        seq![
            EffectModel::CopyTree(at(cache.ktx_build_dir, "include"@), at(own_build, "include"@)),
        ]
    } else {
        Seq::empty()
    };
    let plan = first + headers + seq![EffectModel::CopyFile(cache.bindings_file, own_bindings)];
    assert(clearing(target) =~= removal);
    assert(opening(cache, target) =~= first);
    if outcomes.len() > 4 {
        assert(copying(cache, target, outcomes[4]) =~= plan);
        assert(plan.len() == copying_len(outcomes[4]));
    }
    let copied = forall|i: int|
        0 <= i < plan.len() && (plan[i] is CopyTree || plan[i] is CopyFile)
            ==> #[trigger] outcomes[i];
    if outcomes.len() >= plan.len() {
        let last = plan.len() - 1;
        assert(plan[3] is CopyTree && plan[last] is CopyFile);
        if outcomes[4] {
            assert(plan[5] is CopyTree);
        }
        if copied {
            assert(outcomes[3] && outcomes[last]);
            if outcomes[4] {
                assert(outcomes[5]);
            }
        }
        if is_complete(outcomes) {
            assert forall|i: int|
                0 <= i < plan.len() && (plan[i] is CopyTree || plan[i] is CopyFile) implies
                #[trigger] outcomes[i] by {
                assert(i == 3 || i == last || (outcomes[4] && i == 5));
            }
        }
        assert(copied == is_complete(outcomes));
    }
}

} // verus!
