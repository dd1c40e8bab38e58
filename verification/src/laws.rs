//! The engine's governing properties, stated and proved over the same spec
//! functions the executable contracts use.
use vstd::prelude::*;
use crate::fsmodel::FsVal;
use crate::pathname::{backup_name_of, basename_of, lemma_backup_name_longer};
use crate::system::{resolve_spec, restore_step, swap_events, swap_step, EventV};
use crate::experiment::{enable_fold_events, enable_fold_fs, disable_events, source_for};

verus! {

/// Replacing a target with a symlink is idempotent: once the target is a
/// symlink, a second replacement changes nothing and records nothing.
pub proof fn lemma_replace_with_symlink_idempotent(
    fs: Map<Seq<char>, FsVal>,
    source: Seq<char>,
    target: Seq<char>,
)
    ensures
        swap_step(swap_step(fs, source, target), source, target) == swap_step(fs, source, target),
        swap_events(swap_step(fs, source, target), source, target) == Seq::<EventV>::empty(),
{
    let fs1 = swap_step(fs, source, target);
    assert(fs1.contains_key(target));
    assert(fs1[target] is Link);
}

/// Backing a regular file up, deleting it, then restoring it yields the
/// original content and permission mode back at the file, removes the
/// backup, and touches nothing else.
pub proof fn lemma_backup_restore_round_trip(fs: Map<Seq<char>, FsVal>, file: Seq<char>)
    requires
        fs.contains_key(file),
        fs[file] is Regular,
    ensures
        ({
            let b = backup_name_of(file);
            let restored = restore_step(fs.insert(b, fs[file]).remove(file), file);
            &&& restored.contains_key(file) && restored[file] == fs[file]
            &&& !restored.contains_key(b)
            &&& forall|p: Seq<char>|
                p != file && p != b ==> (
                #[trigger] restored.contains_key(p) == fs.contains_key(p) && (
                restored.contains_key(p) ==> restored[p] == fs[p]))
        }),
{
    lemma_backup_name_longer(file);
}

/// Restoring a file for which no backup exists succeeds and leaves the
/// filesystem exactly as it was.
pub proof fn lemma_restore_missing_backup(fs: Map<Seq<char>, FsVal>, file: Seq<char>)
    requires
        !fs.contains_key(backup_name_of(file)),
    ensures
        restore_step(fs, file) == fs,
{
}

/// Enabling records no command while swapping files: every action of the
/// per-candidate fold is a backup or a symlink, never a command run.
pub proof fn lemma_enable_fold_no_commands(
    fs: Map<Seq<char>, FsVal>,
    paths: Seq<Seq<char>>,
    cands: Seq<Seq<char>>,
    unified: Option<Seq<char>>,
)
    ensures
        forall|j: int|
            0 <= j < enable_fold_events(fs, paths, cands, unified).len() ==> !((
            #[trigger] enable_fold_events(fs, paths, cands, unified)[j]) is RanCommand),
    decreases cands.len(),
{
    if cands.len() > 0 {
        let t = resolve_spec(paths, basename_of(cands.first()));
        let src = source_for(cands.first(), unified);
        lemma_enable_fold_no_commands(swap_step(fs, src, t), paths, cands.drop_first(), unified);
    }
}

/// Disabling records only restoration attempts between its start and the
/// final remove command.
pub proof fn lemma_disable_events_only_restores(paths: Seq<Seq<char>>, cands: Seq<Seq<char>>)
    ensures
        forall|j: int|
            0 <= j < disable_events(paths, cands).len() ==> (#[trigger] disable_events(
                paths,
                cands,
            )[j]) is RestoreAttempted,
{
}

/// The per-candidate fold leaves every path alone that is neither a
/// resolved target nor the backup name of one.
pub proof fn lemma_enable_fold_frame(
    fs: Map<Seq<char>, FsVal>,
    paths: Seq<Seq<char>>,
    cands: Seq<Seq<char>>,
    unified: Option<Seq<char>>,
    k: Seq<char>,
)
    requires
        forall|i: int|
            0 <= i < cands.len() ==> k != (#[trigger] resolve_spec(paths, basename_of(cands[i])))
                && k != backup_name_of(resolve_spec(paths, basename_of(cands[i]))),
    ensures
        enable_fold_fs(fs, paths, cands, unified).contains_key(k) == fs.contains_key(k),
        fs.contains_key(k) ==> enable_fold_fs(fs, paths, cands, unified)[k] == fs[k],
    decreases cands.len(),
{
    if cands.len() > 0 {
        let t = resolve_spec(paths, basename_of(cands.first()));
        let src = source_for(cands.first(), unified);
        assert(resolve_spec(paths, basename_of(cands[0])) == t);
        let fs1 = swap_step(fs, src, t);
        assert(fs1.contains_key(k) == fs.contains_key(k));
        assert(fs.contains_key(k) ==> fs1[k] == fs[k]);
        assert(forall|i: int|
            0 <= i < cands.drop_first().len() ==> (#[trigger] cands.drop_first()[i]) == cands[
                i + 1
            ]);
        lemma_enable_fold_frame(fs1, paths, cands.drop_first(), unified, k);
    }
}

/// With a unified binary `u`, enabling fans every candidate in: each
/// candidate's resolved system path ends up a symlink to `u` itself, not to
/// the candidate's own directory entry. This holds whenever the resolved
/// targets are pairwise distinct, none is the backup name of another, and
/// none is already a symlink.
pub proof fn lemma_enable_unified_fan_in(
    fs: Map<Seq<char>, FsVal>,
    paths: Seq<Seq<char>>,
    cands: Seq<Seq<char>>,
    u: Seq<char>,
)
    requires
        forall|i: int, j: int|
            0 <= i < cands.len() && 0 <= j < cands.len() && i != j ==> (#[trigger] resolve_spec(
                paths,
                basename_of(cands[i]),
            )) != (#[trigger] resolve_spec(paths, basename_of(cands[j]))),
        forall|i: int, j: int|
            0 <= i < cands.len() && 0 <= j < cands.len() ==> (#[trigger] resolve_spec(
                paths,
                basename_of(cands[i]),
            )) != (#[trigger] backup_name_of(resolve_spec(paths, basename_of(cands[j])))),
        forall|i: int|
            0 <= i < cands.len() ==> !(fs.contains_key(
                #[trigger] resolve_spec(paths, basename_of(cands[i])),
            ) && fs[resolve_spec(paths, basename_of(cands[i]))] is Link),
    ensures
        forall|i: int|
            0 <= i < cands.len() ==> {
                let t = #[trigger] resolve_spec(paths, basename_of(cands[i]));
                enable_fold_fs(fs, paths, cands, Some(u)).contains_key(t) && enable_fold_fs(
                    fs,
                    paths,
                    cands,
                    Some(u),
                )[t] == (FsVal::Link { source: u })
            },
    decreases cands.len(),
{
    if cands.len() > 0 {
        let t0 = resolve_spec(paths, basename_of(cands.first()));
        assert(resolve_spec(paths, basename_of(cands[0])) == t0);
        let fs1 = swap_step(fs, u, t0);
        assert(fs1.contains_key(t0) && fs1[t0] == (FsVal::Link { source: u }));
        let rest = cands.drop_first();
        assert(forall|i: int| 0 <= i < rest.len() ==> (#[trigger] rest[i]) == cands[i + 1]);
        assert(forall|i: int|
            0 <= i < rest.len() ==> !(fs1.contains_key(
                #[trigger] resolve_spec(paths, basename_of(rest[i])),
            ) && fs1[resolve_spec(paths, basename_of(rest[i]))] is Link)) by {
            assert(forall|i: int|
                0 <= i < rest.len() ==> (#[trigger] resolve_spec(paths, basename_of(rest[i])))
                    == resolve_spec(paths, basename_of(cands[i + 1])));
        }
        lemma_enable_unified_fan_in(fs1, paths, rest, u);
        lemma_enable_fold_frame(fs1, paths, rest, Some(u), t0);
        assert(enable_fold_fs(fs, paths, cands, Some(u)) == enable_fold_fs(
            fs1,
            paths,
            rest,
            Some(u),
        ));
        assert forall|i: int| 0 <= i < cands.len() implies {
            let t = #[trigger] resolve_spec(paths, basename_of(cands[i]));
            enable_fold_fs(fs, paths, cands, Some(u)).contains_key(t) && enable_fold_fs(
                fs,
                paths,
                cands,
                Some(u),
            )[t] == (FsVal::Link { source: u })
        } by {
            if i == 0 {
            } else {
                assert(rest[i - 1] == cands[i]);
            }
        }
    }
}

} // verus!
