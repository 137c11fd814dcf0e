//! The shape of the test trees that `maketree` generates: how many
//! directories and files a tree has, and which of them are made purgeable now
//! or later by backdating their timestamps.

use vstd::prelude::*;
use crate::metadata_utils::{EntryPurgeState, DAY_IN_SECS, EntryMetadata, entry_purge_state};
use crate::purger::Cli as PurgeCli;

verus! {

/// The settings of a tree generation.
pub struct Cli {
    /// Root of tree to generate.
    pub root: String,
    /// Depth of tree.
    pub depth: u32,
    /// Branching factor.
    pub branching_factor: u32,
    /// File count per directory.
    pub file_count: u32,
    /// Verbose.
    pub verbose: bool,
    /// Interactive.
    pub interactive: bool,
    /// Force creation even if root directory already exists.
    pub force: bool,
    /// Deterministic purgeable output: even directories purgeable, odd ones
    /// not.  Without it no timestamp is backdated.
    pub purgable: bool,
    /// Bytes written to each file.
    pub data_size: u32,
    /// Mix files purgeable now with files purgeable later.
    pub unbalanced: bool,
}

/// The size of a generated tree.
#[derive(Clone, Copy, PartialEq, Eq, Structural, Debug)]
pub struct MakeTreeStatistics {
    pub num_files: u64,
    pub num_dirs: u64,
}

/// `b` to the power `e`.
pub open spec fn power(b: nat, e: nat) -> nat
    decreases e,
{
    if e == 0 {
        1
    } else {
        b * power(b, (e - 1) as nat)
    }
}

/// The number of directories of a tree of the given depth and branching
/// factor, the root included: `1 + b + b^2 + .. + b^depth`.
pub open spec fn directory_count(b: nat, depth: nat) -> nat
    decreases depth,
{
    if depth == 0 {
        1
    } else {
        directory_count(b, (depth - 1) as nat) + power(b, depth)
    }
}

/// The number of files of a tree: `file_count` in every directory but the root.
pub open spec fn file_total(args: Cli) -> nat {
    ((directory_count(args.branching_factor as nat, args.depth as nat) - 1) * args.file_count) as nat
}

/// The bytes of file data of a tree.
pub open spec fn data_total(args: Cli) -> nat {
    (file_total(args) * args.data_size) as nat
}

proof fn lemma_directory_count_grows(b: nat, d1: nat, d2: nat)
    requires
        d1 <= d2,
    ensures
        directory_count(b, d1) <= directory_count(b, d2),
        power(b, d1) <= directory_count(b, d2),
    decreases d2,
{
    if d1 < d2 {
        lemma_directory_count_grows(b, d1, (d2 - 1) as nat);
    }
}

/// The size of the tree that `make_tree` generates, and the bytes of data it
/// writes.  The counts must fit in 64 bits, and the directory count must not
/// be 2^63, where the file count's signed intermediate overflows.
pub fn tree_statistics(args: &Cli) -> (result: (MakeTreeStatistics, u64))
    requires
        directory_count(args.branching_factor as nat, args.depth as nat) <= u64::MAX,
        directory_count(args.branching_factor as nat, args.depth as nat) != 0x8000_0000_0000_0000,
        data_total(*args) <= u64::MAX,
        file_total(*args) <= u64::MAX,
    ensures
        result.0.num_dirs == directory_count(args.branching_factor as nat, args.depth as nat),
        result.0.num_files == file_total(*args),
        result.1 == data_total(*args),
{
    let b = args.branching_factor as u64;
    let ghost bn = args.branching_factor as nat;
    let ghost dn = args.depth as nat;
    let mut total_dirs: u64 = 0;
    let mut term: u64 = 1;
    let mut i: u32 = 0;
    loop
        invariant_except_break
            term == power(bn, i as nat),
            i == 0 ==> total_dirs == 0,
            i > 0 ==> total_dirs == directory_count(bn, (i - 1) as nat),
        invariant
            i <= args.depth,
            b == bn,
            dn == args.depth,
            directory_count(bn, dn) <= u64::MAX,
        ensures
            total_dirs == directory_count(bn, dn),
        decreases args.depth - i,
    {
        proof {
            lemma_directory_count_grows(bn, i as nat, dn);
        }
        total_dirs = total_dirs + term;
        assert(total_dirs == directory_count(bn, i as nat));
        if i == args.depth {
            break;
        }
        proof {
            lemma_directory_count_grows(bn, (i + 1) as nat, dn);
            assert(power(bn, (i + 1) as nat) == bn * power(bn, i as nat));
        }
        term = term * b;
        i = i + 1;
    }
    proof {
        lemma_directory_count_grows(bn, 0, dn);
    }
    let files = (total_dirs - 1) * args.file_count as u64;
    let data = files * args.data_size as u64;
    (MakeTreeStatistics { num_files: files, num_dirs: total_dirs }, data)
}

/// Whether a directory of the generated tree is purgeable: under the root, the
/// even subdirectories are and the odd ones are not; deeper down every
/// directory follows its parent.
pub open spec fn subdir_is_purgable(parent_flag: Option<bool>, index: u32) -> bool {
    match parent_flag {
        None => index % 2 == 0,
        Some(flag) => flag,
    }
}

/// The verdict that file `file_index` of directory `dir_index` is made to
/// receive.  Without `purgable` nothing is backdated.  With it, in a purgeable
/// directory every file is purgeable now, except the even ones of an
/// unbalanced tree, which are purgeable later; in the other directories the
/// even files are purgeable now and the odd ones are kept.
pub open spec fn file_state(
    purgable: bool,
    parent_flag: Option<bool>,
    dir_index: u32,
    file_index: u32,
    unbalanced: bool,
) -> EntryPurgeState {
    if !purgable {
        EntryPurgeState::NotPurgable
    } else if subdir_is_purgable(parent_flag, dir_index) {
        if file_index % 2 == 0 && unbalanced {
            EntryPurgeState::PurgeLater
        } else {
            EntryPurgeState::PurgeNow
        }
    } else if file_index % 2 == 0 {
        EntryPurgeState::PurgeNow
    } else {
        EntryPurgeState::NotPurgable
    }
}

/// The verdict that subdirectory `index` is made to receive: with `purgable`,
/// purgeable directories are backdated; every other directory keeps its
/// timestamps.
pub open spec fn dir_state(purgable: bool, parent_flag: Option<bool>, index: u32) -> EntryPurgeState {
    if purgable && subdir_is_purgable(parent_flag, index) {
        EntryPurgeState::PurgeNow
    } else {
        EntryPurgeState::NotPurgable
    }
}

/// Whether the subdirectory `index` of a directory with the given flag is
/// purgeable; its own subdirectories inherit the answer.
pub fn subdir_purgable(parent_flag: Option<bool>, index: u32) -> (purgable: bool)
    ensures
        purgable == subdir_is_purgable(parent_flag, index),
{
    match parent_flag {
        None => index % 2 == 0,
        Some(flag) => flag,
    }
}

/// The verdict a generated file is made to receive; `purgable` is the
/// generator's `--purgable` setting.
pub fn file_timestamp_state(
    purgable: bool,
    parent_flag: Option<bool>,
    dir_index: u32,
    file_index: u32,
    unbalanced: bool,
) -> (state: EntryPurgeState)
    ensures
        state == file_state(purgable, parent_flag, dir_index, file_index, unbalanced),
        !purgable ==> state == EntryPurgeState::NotPurgable,
        purgable && !subdir_is_purgable(parent_flag, dir_index) ==> state == (if file_index % 2 == 0 {
            EntryPurgeState::PurgeNow
        } else {
            EntryPurgeState::NotPurgable
        }),
        purgable && subdir_is_purgable(parent_flag, dir_index) ==> state == (if unbalanced && file_index
            % 2 == 0 {
            EntryPurgeState::PurgeLater
        } else {
            EntryPurgeState::PurgeNow
        }),
{
    if !purgable {
        EntryPurgeState::NotPurgable
    } else if subdir_purgable(parent_flag, dir_index) {
        if file_index % 2 == 0 && unbalanced {
            EntryPurgeState::PurgeLater
        } else {
            EntryPurgeState::PurgeNow
        }
    } else if file_index % 2 == 0 {
        EntryPurgeState::PurgeNow
    } else {
        EntryPurgeState::NotPurgable
    }
}

/// The verdict a generated directory is made to receive.
pub fn dir_timestamp_state(purgable: bool, parent_flag: Option<bool>, index: u32) -> (state: EntryPurgeState)
    ensures
        state == dir_state(purgable, parent_flag, index),
{
    if purgable && subdir_purgable(parent_flag, index) {
        EntryPurgeState::PurgeNow
    } else {
        EntryPurgeState::NotPurgable
    }
}

/// The backdated access and modification time for an entry that is to
/// receive the given verdict, at time `now`: 31 days old for one purgeable now
/// (runs use an age of 30 days), 24 days old for one purgeable later (Puriel
/// runs a week after Rafael); entries that are kept are not backdated.
pub fn backdated_time(now: i64, state: EntryPurgeState) -> (time: Option<i64>)
    requires
        state == EntryPurgeState::PurgeNow ==> now >= i64::MIN + DAY_IN_SECS * 31,
        state == EntryPurgeState::PurgeLater ==> now >= i64::MIN + DAY_IN_SECS * 24,
    ensures
        state == EntryPurgeState::NotPurgable ==> time is None,
        state == EntryPurgeState::PurgeNow ==> time == Some((now - DAY_IN_SECS * 31) as i64),
        state == EntryPurgeState::PurgeLater ==> time == Some((now - DAY_IN_SECS * 24) as i64),
{
    match state {
        EntryPurgeState::NotPurgable => None,
        EntryPurgeState::PurgeNow => Some(now - DAY_IN_SECS * 31),
        EntryPurgeState::PurgeLater => Some(now - DAY_IN_SECS * 24),
    }
}


/// Subdirectories of a purgeable directory are purgeable, at every depth.
pub proof fn lemma_purgability_is_inherited(index: u32)
    ensures
        subdir_is_purgable(Some(true), index),
        !subdir_is_purgable(Some(false), index),
{
}

/// Without `purgable` nothing is backdated.  With it, a purgeable directory
/// receives no file that is kept, a balanced tree receives no file that is
/// purgeable only later, and neither does a directory that is not purgeable.
pub proof fn lemma_generated_file_states(
    purgable: bool,
    parent_flag: Option<bool>,
    dir_index: u32,
    file_index: u32,
    unbalanced: bool,
)
    ensures
        !purgable ==> file_state(purgable, parent_flag, dir_index, file_index, unbalanced)
            == EntryPurgeState::NotPurgable && dir_state(purgable, parent_flag, dir_index)
            == EntryPurgeState::NotPurgable,
        purgable && subdir_is_purgable(parent_flag, dir_index) ==> file_state(
            purgable,
            parent_flag,
            dir_index,
            file_index,
            unbalanced,
        ) != EntryPurgeState::NotPurgable,
        !unbalanced ==> file_state(purgable, parent_flag, dir_index, file_index, unbalanced)
            != EntryPurgeState::PurgeLater,
        !subdir_is_purgable(parent_flag, dir_index) ==> file_state(
            purgable,
            parent_flag,
            dir_index,
            file_index,
            unbalanced,
        ) != EntryPurgeState::PurgeLater,
{
}

/// The generator's backdating and the purge rules agree.  Take a run with an
/// age of 30 days that ignores ctime, does not erase and records for Puriel 7
/// days ahead, and a file not owned by root whose access and modification
/// times were set at time `t`.  Backdated by 31 days, the file is purged at any
/// later time; backdated by 24 days, it is recorded for Puriel during the six
/// days that follow `t`.
pub proof fn lemma_backdating_meets_the_rules(
    args: PurgeCli,
    m: EntryMetadata,
    components_count: int,
    t: int,
    now: int,
)
    requires
        args.age == 30,
        args.ignore_ctime,
        !args.erase,
        args.enable_puriel,
        args.puriel_days == 7,
        m.uid != 0,
        m.atime == m.mtime,
        t <= now,
    ensures
        m.atime == t - DAY_IN_SECS * 31 ==> entry_purge_state(args, m, components_count, false, now)
            == EntryPurgeState::PurgeNow,
        m.atime == t - DAY_IN_SECS * 24 && now <= t + DAY_IN_SECS * 6 ==> entry_purge_state(
            args,
            m,
            components_count,
            false,
            now,
        ) == EntryPurgeState::PurgeLater,
{
}


/// Which directories of a generated tree are purgeable: directly under the
/// root, the even-numbered ones; deeper down, each exactly when its parent is.
pub proof fn lemma_purgeable_directories(parent_flag: Option<bool>, index: u32)
    ensures
        parent_flag is None ==> subdir_is_purgable(parent_flag, index) == (index % 2 == 0),
        parent_flag is Some ==> subdir_is_purgable(parent_flag, index) == parent_flag->0,
{
}

/// The backdating pattern of `maketree --purgable`, file by file.  In a
/// purgeable directory, every file is purgeable now, except that in an
/// unbalanced tree the even-numbered files are purgeable only later.  In a
/// directory that is not purgeable, at any depth, the even-numbered files are
/// purgeable now and the odd-numbered ones are kept.  Purgeable directories are
/// backdated; the others are not.
pub proof fn lemma_backdating_pattern(
    parent_flag: Option<bool>,
    dir_index: u32,
    file_index: u32,
    unbalanced: bool,
)
    ensures
        ({
            let dir_purgable = match parent_flag {
                None => dir_index % 2 == 0,
                Some(flag) => flag,
            };
            &&& dir_purgable && !(unbalanced && file_index % 2 == 0) ==> file_state(
                true,
                parent_flag,
                dir_index,
                file_index,
                unbalanced,
            ) == EntryPurgeState::PurgeNow
            &&& dir_purgable && unbalanced && file_index % 2 == 0 ==> file_state(
                true,
                parent_flag,
                dir_index,
                file_index,
                unbalanced,
            ) == EntryPurgeState::PurgeLater
            &&& !dir_purgable && file_index % 2 == 0 ==> file_state(
                true,
                parent_flag,
                dir_index,
                file_index,
                unbalanced,
            ) == EntryPurgeState::PurgeNow
            &&& !dir_purgable && file_index % 2 == 1 ==> file_state(
                true,
                parent_flag,
                dir_index,
                file_index,
                unbalanced,
            ) == EntryPurgeState::NotPurgable
            &&& dir_state(true, parent_flag, dir_index) == (if dir_purgable {
                EntryPurgeState::PurgeNow
            } else {
                EntryPurgeState::NotPurgable
            })
        }),
{
}

} // verus!
