//! A model of the atomic-write capability both stores rely on: write the new
//! content to a temporary file in the target's directory, then rename it
//! over the target in one atomic step.
//!
//! A directory is modeled as a map from path to file content, as a
//! concurrent reader sees it.  The two steps of the protocol are spec
//! functions on that map; the laws below say what makes the protocol safe:
//! a reader observes either the prior content in full or the new content in
//! full, never a mixture, and an interrupted write leaves the target
//! untouched.  The caller performs the real steps with the reported
//! outcomes; `workspace::create` uses the create-only mode, the pointer
//! store's write the overwrite mode.

use vstd::prelude::*;

use crate::error::Error;

verus! {

/// Step one of an atomic write: the new content appears in full at a fresh
/// temporary path in the target's directory.
pub open spec fn place_temp(
    dir: Map<Seq<char>, Seq<char>>,
    temp: Seq<char>,
    content: Seq<char>,
) -> Map<Seq<char>, Seq<char>> {
    dir.insert(temp, content)
}

/// Step two: the temporary file is renamed over the target in one atomic
/// step.
pub open spec fn commit_rename(
    dir: Map<Seq<char>, Seq<char>>,
    temp: Seq<char>,
    target: Seq<char>,
) -> Map<Seq<char>, Seq<char>> {
    dir.remove(temp).insert(target, dir[temp])
}

/// A whole atomic overwrite of `target` with `content`, via `temp`: the mode
/// the pointer store writes with.
pub open spec fn atomic_overwrite(
    dir: Map<Seq<char>, Seq<char>>,
    temp: Seq<char>,
    target: Seq<char>,
    content: Seq<char>,
) -> Map<Seq<char>, Seq<char>> {
    commit_rename(place_temp(dir, temp, content), temp, target)
}

/// An atomic create-only write: refused, with the directory untouched, when
/// the target already exists — the mode records are created with.
pub open spec fn atomic_create(
    dir: Map<Seq<char>, Seq<char>>,
    temp: Seq<char>,
    target: Seq<char>,
    content: Seq<char>,
) -> (Map<Seq<char>, Seq<char>>, Result<(), Error>) {
    if dir.contains_key(target) {
        (dir, Err(Error::AlreadyExists))
    } else {
        (atomic_overwrite(dir, temp, target, content), Ok(()))
    }
}

/// Law: interrupting an atomic write after the temporary file was placed but
/// before the rename leaves the target exactly as it was — present if and
/// only if it was present, byte for byte unchanged.
pub proof fn lemma_interrupted_write_leaves_target(
    dir: Map<Seq<char>, Seq<char>>,
    temp: Seq<char>,
    target: Seq<char>,
    content: Seq<char>,
)
    requires
        temp != target,
    ensures
        place_temp(dir, temp, content).contains_key(target) == dir.contains_key(target),
        dir.contains_key(target) ==> place_temp(dir, temp, content)[target] == dir[target],
{
}

/// Law: at every point of an atomic overwrite a reader of the target sees
/// either the prior content in full or the new content in full, never a
/// mixture — after the placing step the prior state, after the rename the
/// new content — and no other path in the directory is disturbed once the
/// temporary file is gone.
pub proof fn lemma_overwrite_atomic(
    dir: Map<Seq<char>, Seq<char>>,
    temp: Seq<char>,
    target: Seq<char>,
    content: Seq<char>,
)
    requires
        temp != target,
    ensures
        place_temp(dir, temp, content).contains_key(target) == dir.contains_key(target),
        dir.contains_key(target) ==> place_temp(dir, temp, content)[target] == dir[target],
        atomic_overwrite(dir, temp, target, content).contains_key(target),
        atomic_overwrite(dir, temp, target, content)[target] == content,
        forall|p: Seq<char>|
            p != temp && p != target ==> #[trigger] atomic_overwrite(
                dir,
                temp,
                target,
                content,
            ).contains_key(p) == dir.contains_key(p),
        forall|p: Seq<char>|
            p != temp && p != target && dir.contains_key(p) ==> #[trigger] atomic_overwrite(
                dir,
                temp,
                target,
                content,
            )[p] == dir[p],
{
}

/// Law: the create-only mode refuses an existing target with
/// `AlreadyExists` and leaves the whole directory — in particular the
/// target's content — unchanged.
pub proof fn lemma_create_only_preserves_existing(
    dir: Map<Seq<char>, Seq<char>>,
    temp: Seq<char>,
    target: Seq<char>,
    content: Seq<char>,
)
    requires
        dir.contains_key(target),
    ensures
        atomic_create(dir, temp, target, content).0 == dir,
        atomic_create(dir, temp, target, content).1 == Err::<(), Error>(Error::AlreadyExists),
{
}

/// Law: the create-only mode on an absent target installs the new content
/// and succeeds.
pub proof fn lemma_create_installs(
    dir: Map<Seq<char>, Seq<char>>,
    temp: Seq<char>,
    target: Seq<char>,
    content: Seq<char>,
)
    requires
        !dir.contains_key(target),
        temp != target,
    ensures
        atomic_create(dir, temp, target, content).1 == Ok::<(), Error>(()),
        atomic_create(dir, temp, target, content).0.contains_key(target),
        atomic_create(dir, temp, target, content).0[target] == content,
{
}

} // verus!
