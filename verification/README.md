# ktx_build_cache

A build script that compiles KTX-Software from source takes minutes. This library decides
whether a finished build can be taken over instead, and how.

## What it does

1. **Search.** The build root of the current profile comes first, then that of the other profile
   in the same target directory, then the target directories (`target` and `target-*`) of the
   other Git worktrees. Coverage and Miri builds are served by plain ones. A build for a target
   triple is served by that triple only, and no build is served by itself.
2. **Check.** A build counts only if its library for the target system and its bindings are
   there, readable and not empty, and the header of its sources is there. A framework
   may also be a directory that has entries.
3. **Restore.** Stale parts are removed, then the libraries, the headers of the build tree and
   the bindings are copied, and nothing else. If a copy fails, everything that was written is
   removed again.

`KTX_NO_CACHE_REUSE` turns all of this off, `KTX_NO_WORKTREE_CACHE` leaves the other worktrees
alone. Either is set by `1` or `true`.

## How it is built

The library does no input or output. A decision is a function of the answers that are known so
far and returns either its result or the next query; the caller answers the query and decides
again. Changes on disk work the same way: the library names the next effect, the caller performs
it and hands back the outcome.

- `src/observe.rs` holds queries, answers and what a decision comes to.
- `src/path.rs`, `src/text.rs` and `src/environment.rs` hold paths, text and variables.
- `src/context.rs` reads the directories of a build off its output directory.
- `src/cache.rs` and `src/search.rs` check a build and search a build root.
- `src/git.rs` and `src/worktree.rs` find the other worktrees and search them.
- `src/restore.rs` and `src/copy.rs` plan the restore and walk through a directory.
- `src/reuse.rs` puts it together.
- `src/artifacts.rs` proves that a restored build has its library and its bindings.
- `src/local.rs` proves that a search that leaves the other worktrees alone depends on the own
  target directory only.
- `src/stable.rs` proves that a search asks and finds the same whatever it knew before, and that
  it comes to an end.
- `app/` answers the queries and performs the effects on a real host.

## What is trusted

One call: `String::from_utf8_lossy`, for what `git` prints.
