//! The age rules: whether an entry is purged now, recorded for a later purge
//! by Puriel, or kept.

use vstd::prelude::*;
use crate::purger::Cli;
use crate::puriel_utils::Cli as PurielCli;

verus! {

/// Seconds in a day.
pub const DAY_IN_SECS: i64 = 86_400;

/// The verdict on an entry.
#[derive(Clone, Copy, PartialEq, Eq, Structural, Debug)]
pub enum EntryPurgeState {
    NotPurgable,
    PurgeNow,
    PurgeLater,
}

/// The metadata of an entry that the rules read: owner, the three
/// timestamps (seconds since the epoch) and the mode bits.
#[derive(Clone, Copy, PartialEq, Eq, Structural, Debug)]
pub struct EntryMetadata {
    pub uid: u32,
    pub atime: i64,
    pub ctime: i64,
    pub mtime: i64,
    pub mode: u16,
}

/// What to do with a file after its verdict.
#[derive(Clone, Copy, PartialEq, Eq, Structural, Debug)]
pub enum FileAction {
    /// Remove the file, then count and log it.
    Delete,
    /// Dry run: count and log the file as one that would be deleted.
    ReportWouldDelete,
    /// Write the file's path to the worker's Puriel target file.
    RecordPurielTarget,
    /// Leave the file alone.
    Keep,
}

pub open spec fn max_int(a: int, b: int) -> int {
    if a >= b {
        a
    } else {
        b
    }
}

/// The newest of the timestamps the rules look at.
pub open spec fn newest_time(m: EntryMetadata, ignore_ctime: bool) -> int {
    if ignore_ctime {
        max_int(m.atime as int, m.mtime as int)
    } else {
        max_int(m.atime as int, max_int(m.ctime as int, m.mtime as int))
    }
}

/// Whether position `i` of `path` ends a named segment: a run of characters
/// between separators that is not the `.` that names the current directory.
pub open spec fn ends_named_segment(path: Seq<char>, i: int) -> bool {
    &&& path[i] != '/'
    &&& i + 1 == path.len() || path[i + 1] == '/'
    &&& !(path[i] == '.' && (i == 0 || path[i - 1] == '/'))
}

/// The number of named segments among the first `k` characters of `path`.
pub open spec fn named_segments(path: Seq<char>, k: int) -> nat
    decreases k,
{
    if k <= 0 {
        0
    } else {
        named_segments(path, k - 1) + if ends_named_segment(path, k - 1) {
            1nat
        } else {
            0nat
        }
    }
}

/// The number of components of a Unix path, as `Path::components` counts
/// them: the root directory for a leading `/`, the current directory for a
/// leading `.` segment, and then every segment that is neither empty
/// (repeated or trailing separators) nor `.`.
pub open spec fn path_component_count(path: Seq<char>) -> nat {
    (if path.len() > 0 && path[0] == '/' {
        1nat
    } else {
        0nat
    }) + (if path.len() > 0 && path[0] == '.' && (path.len() == 1 || path[1] == '/') {
        1nat
    } else {
        0nat
    }) + named_segments(path, path.len() as int)
}

/// Whether a directory lies within the protected levels below the root.
pub open spec fn depth_protected(args: Cli, components_count: int) -> bool {
    path_component_count(args.root@) + args.depth_protection >= components_count
}

/// The verdict on an entry at time `now` (seconds since the epoch).
///
/// Protected directories are kept; with `erase` everything else is purged;
/// entries of root are kept; an entry whose newest timestamp is more than `age`
/// days old is purged now; with Puriel enabled a file that will be that old in
/// `puriel_days` days is recorded for later; everything else is kept.
pub open spec fn entry_purge_state(
    args: Cli,
    m: EntryMetadata,
    components_count: int,
    is_dir: bool,
    now: int,
) -> EntryPurgeState {
    let newest = newest_time(m, args.ignore_ctime);
    if is_dir && depth_protected(args, components_count) {
        EntryPurgeState::NotPurgable
    } else if args.erase {
        EntryPurgeState::PurgeNow
    } else if m.uid == 0 {
        EntryPurgeState::NotPurgable
    } else if newest < now - DAY_IN_SECS * args.age {
        EntryPurgeState::PurgeNow
    } else if args.enable_puriel && !is_dir && newest < now + (DAY_IN_SECS * args.puriel_days
        - DAY_IN_SECS * args.age) {
        EntryPurgeState::PurgeLater
    } else {
        EntryPurgeState::NotPurgable
    }
}

/// Puriel's verdict on a recorded target at time `now`: the file rule of
/// Rafael with `age` days, without erase and without deferral.
pub open spec fn puriel_purge_state(args: PurielCli, m: EntryMetadata, now: int) -> EntryPurgeState {
    if m.uid == 0 {
        EntryPurgeState::NotPurgable
    } else if newest_time(m, args.ignore_ctime) < now - DAY_IN_SECS * args.age {
        EntryPurgeState::PurgeNow
    } else {
        EntryPurgeState::NotPurgable
    }
}

/// The action for a file with the given verdict.
pub open spec fn file_action(state: EntryPurgeState, dry_run: bool) -> FileAction {
    match state {
        EntryPurgeState::PurgeNow => if dry_run {
            FileAction::ReportWouldDelete
        } else {
            FileAction::Delete
        },
        EntryPurgeState::PurgeLater => FileAction::RecordPurielTarget,
        EntryPurgeState::NotPurgable => FileAction::Keep,
    }
}

/// `Path::components().count()` on the given path.  The contract states the
/// count as std documents the components on Unix: a root directory, a leading
/// current directory, then the names, with repeated separators, trailing
/// separators and inner `.` normalized away (`..` is a component).
#[verifier::external_body]
fn component_count(path: &str) -> (n: usize)
    ensures
        n == path_component_count(path@),
{
    std::path::Path::new(path).components().count()
}

/// The system clock by `SystemTime::now().duration_since(UNIX_EPOCH)`: whether
/// the clock reads at or after the epoch, and the whole seconds of the
/// distance to it either way (the `Err` case's duration when before).  Nothing
/// is promised of the values.
#[verifier::external_body]
fn epoch_reading() -> (reading: (bool, u64)) {
    match std::time::SystemTime::now().duration_since(std::time::UNIX_EPOCH) {
        Ok(d) => (true, d.as_secs()),
        Err(e) => (false, e.duration().as_secs()),
    }
}

/// Seconds from the Unix epoch, signed, clamped to `i64`: what the rules
/// compare timestamps with.
pub open spec fn signed_seconds(after_epoch: bool, secs: u64) -> i64 {
    if after_epoch {
        if secs <= i64::MAX {
            secs as i64
        } else {
            i64::MAX
        }
    } else if secs <= i64::MAX {
        (-(secs as int)) as i64
    } else {
        i64::MIN
    }
}

/// The system clock in signed seconds from the Unix epoch; a clock set before
/// the epoch reads negative.
pub(crate) fn clock_now() -> (now: i64)
    ensures
        exists|after_epoch: bool, secs: u64| now == signed_seconds(after_epoch, secs),
{
    let (after_epoch, secs) = epoch_reading();
    let max = i64::MAX as u64;
    let now = if after_epoch {
        if secs <= max {
            secs as i64
        } else {
            i64::MAX
        }
    } else if secs <= max {
        -(secs as i64)
    } else {
        i64::MIN
    };
    assert(now == signed_seconds(after_epoch, secs));
    now
}

/// Whether a directory whose path has `components_count` components lies within
/// the `depth_protection` levels below a root whose path has `root_components`.
pub fn is_depth_protected(root_components: usize, depth_protection: usize, components_count: usize) -> (protected:
    bool)
    ensures
        protected == (root_components + depth_protection >= components_count),
{
    root_components as u128 + depth_protection as u128 >= components_count as u128
}

/// The newest of three timestamps.
pub fn three_way_max(t1: i64, t2: i64, t3: i64) -> (m: i64)
    ensures
        m == max_int(t1 as int, max_int(t2 as int, t3 as int)),
{
    let m23 = if t2 >= t3 {
        t2
    } else {
        t3
    };
    if t1 >= m23 {
        t1
    } else {
        m23
    }
}

fn newest_timestamp(metadata: &EntryMetadata, ignore_ctime: bool) -> (t: i64)
    ensures
        t == newest_time(*metadata, ignore_ctime),
{
    if ignore_ctime {
        if metadata.atime >= metadata.mtime {
            metadata.atime
        } else {
            metadata.mtime
        }
    } else {
        three_way_max(metadata.atime, metadata.ctime, metadata.mtime)
    }
}

/// The verdict on an entry at time `now`.  `components_count` is the number of
/// components of the entry's path; `is_dir` tells whether it is a directory.
/// Thresholds are computed on wide integers, so no setting overflows them.
pub fn is_entry_purgable_at(
    args: &Cli,
    metadata: &EntryMetadata,
    components_count: usize,
    is_dir: bool,
    now: i64,
) -> (state: EntryPurgeState)
    ensures
        state == entry_purge_state(*args, *metadata, components_count as int, is_dir, now as int),
{
    if is_dir {
        let root_components = component_count(args.root.as_str());
        if is_depth_protected(root_components, args.depth_protection, components_count) {
            return EntryPurgeState::NotPurgable;
        }
    }
    if args.erase {
        return EntryPurgeState::PurgeNow;
    }
    if metadata.uid == 0 {
        return EntryPurgeState::NotPurgable;
    }
    let newest = newest_timestamp(metadata, args.ignore_ctime) as i128;
    let age_secs = DAY_IN_SECS as i128 * args.age as i128;
    if newest < now as i128 - age_secs {
        return EntryPurgeState::PurgeNow;
    }
    if args.enable_puriel && !is_dir {
        let ahead_secs = DAY_IN_SECS as i128 * args.puriel_days as i128;
        if newest < now as i128 + (ahead_secs - age_secs) {
            return EntryPurgeState::PurgeLater;
        }
    }
    EntryPurgeState::NotPurgable
}

/// The verdict on an entry now, by the system clock.
///
/// Whatever the clock reads, the verdict is `entry_purge_state` at some time;
/// the parts of the rule that do not depend on the time are stated outright.
pub fn is_entry_purgable(
    args: &Cli,
    metadata: &EntryMetadata,
    components_count: usize,
    is_dir: bool,
) -> (state: EntryPurgeState)
    ensures
        exists|now: i64|
            state == entry_purge_state(*args, *metadata, components_count as int, is_dir, now as int),
        is_dir && depth_protected(*args, components_count as int) ==> state
            == EntryPurgeState::NotPurgable,
        !(is_dir && depth_protected(*args, components_count as int)) && args.erase ==> state
            == EntryPurgeState::PurgeNow,
        !args.erase && metadata.uid == 0 ==> state == EntryPurgeState::NotPurgable,
        (is_dir || !args.enable_puriel) ==> state != EntryPurgeState::PurgeLater,
{
    let now = clock_now();
    is_entry_purgable_at(args, metadata, components_count, is_dir, now)
}

/// Puriel's verdict on a recorded target at time `now`.
pub fn process_puriel_statx_at(metadata: &EntryMetadata, args: &PurielCli, now: i64) -> (state:
    EntryPurgeState)
    ensures
        state == puriel_purge_state(*args, *metadata, now as int),
{
    if metadata.uid == 0 {
        return EntryPurgeState::NotPurgable;
    }
    let newest = newest_timestamp(metadata, args.ignore_ctime) as i128;
    if newest < now as i128 - DAY_IN_SECS as i128 * args.age as i128 {
        EntryPurgeState::PurgeNow
    } else {
        EntryPurgeState::NotPurgable
    }
}

/// Puriel's verdict on a recorded target now, by the system clock.  It is
/// never `PurgeLater`, and targets owned by root are kept.
pub fn process_puriel_statx(metadata: &EntryMetadata, args: &PurielCli) -> (state: EntryPurgeState)
    ensures
        exists|now: i64| state == puriel_purge_state(*args, *metadata, now as int),
        state != EntryPurgeState::PurgeLater,
        metadata.uid == 0 ==> state == EntryPurgeState::NotPurgable,
{
    let now = clock_now();
    process_puriel_statx_at(metadata, args, now)
}

/// The file action for a verdict.
/// Dry runs only count and log.
pub fn plan_file_action(state: EntryPurgeState, dry_run: bool) -> (action: FileAction)
    ensures
        action == file_action(state, dry_run),
        (action == FileAction::Keep) == (state == EntryPurgeState::NotPurgable),
        (action == FileAction::Delete) == (state == EntryPurgeState::PurgeNow && !dry_run),
        (action == FileAction::ReportWouldDelete) == (state == EntryPurgeState::PurgeNow && dry_run),
        (action == FileAction::RecordPurielTarget) == (state == EntryPurgeState::PurgeLater),
{
    match state {
        EntryPurgeState::PurgeNow => if dry_run {
            FileAction::ReportWouldDelete
        } else {
            FileAction::Delete
        },
        EntryPurgeState::PurgeLater => FileAction::RecordPurielTarget,
        EntryPurgeState::NotPurgable => FileAction::Keep,
    }
}


/// What processing one file adds to the run's counters.
#[derive(Clone, Copy, PartialEq, Eq, Structural, Debug)]
pub struct FileCounts {
    /// Files checked.
    pub checked: usize,
    /// Files purged (or, in a dry run, that would be).
    pub purged: usize,
    /// Files recorded for Puriel.
    pub recorded: usize,
}

/// The counter increments for a file handled with `action`; `removed` tells
/// whether the removal of a file to delete succeeded.  Every file is checked;
/// a file counts as purged when it was removed or, in a dry run, reported;
/// a file written to the Puriel target file counts as recorded.
pub fn file_counts(action: FileAction, removed: bool) -> (counts: FileCounts)
    ensures
        counts.checked == 1,
        counts.purged == (if action == FileAction::ReportWouldDelete || (action == FileAction::Delete
            && removed) {
            1usize
        } else {
            0usize
        }),
        counts.recorded == (if action == FileAction::RecordPurielTarget {
            1usize
        } else {
            0usize
        }),
{
    match action {
        FileAction::Delete => FileCounts { checked: 1, purged: if removed {
            1
        } else {
            0
        }, recorded: 0 },
        FileAction::ReportWouldDelete => FileCounts { checked: 1, purged: 1, recorded: 0 },
        FileAction::RecordPurielTarget => FileCounts { checked: 1, purged: 0, recorded: 1 },
        FileAction::Keep => FileCounts { checked: 1, purged: 0, recorded: 0 },
    }
}

/// Orders the verdicts: kept, recorded for later, purged now.
pub open spec fn purge_rank(state: EntryPurgeState) -> int {
    match state {
        EntryPurgeState::NotPurgable => 0,
        EntryPurgeState::PurgeLater => 1,
        EntryPurgeState::PurgeNow => 2,
    }
}

/// Directories are never recorded for a later purge.
pub proof fn lemma_directories_never_deferred(
    args: Cli,
    m: EntryMetadata,
    components_count: int,
    now: int,
)
    ensures
        entry_purge_state(args, m, components_count, true, now) != EntryPurgeState::PurgeLater,
{
}

/// Directories within the protected levels below the root are kept, even when
/// erasing.
pub proof fn lemma_protected_directories_kept(
    args: Cli,
    m: EntryMetadata,
    components_count: int,
    now: int,
)
    requires
        depth_protected(args, components_count),
    ensures
        entry_purge_state(args, m, components_count, true, now) == EntryPurgeState::NotPurgable,
{
}

/// Erasing purges every entry that is not a protected directory, whatever its
/// owner and age.
pub proof fn lemma_erase_purges_everything_else(
    args: Cli,
    m: EntryMetadata,
    components_count: int,
    is_dir: bool,
    now: int,
)
    requires
        args.erase,
        !(is_dir && depth_protected(args, components_count)),
    ensures
        entry_purge_state(args, m, components_count, is_dir, now) == EntryPurgeState::PurgeNow,
{
}

/// Without erase, entries owned by root are kept.
pub proof fn lemma_root_owned_entries_kept(
    args: Cli,
    m: EntryMetadata,
    components_count: int,
    is_dir: bool,
    now: int,
)
    requires
        !args.erase,
        m.uid == 0,
    ensures
        entry_purge_state(args, m, components_count, is_dir, now) == EntryPurgeState::NotPurgable,
{
}

/// Enabling Puriel, or changing how far ahead it looks, changes no decision to
/// purge now: it only turns kept files into recorded ones.
pub proof fn lemma_deferral_keeps_immediate_verdicts(
    a1: Cli,
    a2: Cli,
    m: EntryMetadata,
    components_count: int,
    is_dir: bool,
    now: int,
)
    requires
        a1.root@ == a2.root@,
        a1.depth_protection == a2.depth_protection,
        a1.erase == a2.erase,
        a1.ignore_ctime == a2.ignore_ctime,
        a1.age == a2.age,
    ensures
        (entry_purge_state(a1, m, components_count, is_dir, now) == EntryPurgeState::PurgeNow)
            == (entry_purge_state(a2, m, components_count, is_dir, now) == EntryPurgeState::PurgeNow),
        !a2.enable_puriel && entry_purge_state(a1, m, components_count, is_dir, now)
            == EntryPurgeState::PurgeLater ==> entry_purge_state(a2, m, components_count, is_dir, now)
            == EntryPurgeState::NotPurgable,
{
}

/// Of two entries with the same owner, the one whose newest timestamp is older
/// gets a verdict at least as strong.
pub proof fn lemma_older_entries_rank_higher(
    args: Cli,
    m1: EntryMetadata,
    m2: EntryMetadata,
    components_count: int,
    is_dir: bool,
    now: int,
)
    requires
        m1.uid == m2.uid,
        newest_time(m1, args.ignore_ctime) <= newest_time(m2, args.ignore_ctime),
    ensures
        purge_rank(entry_purge_state(args, m1, components_count, is_dir, now)) >= purge_rank(
            entry_purge_state(args, m2, components_count, is_dir, now),
        ),
{
}

/// Raising `age`, all else equal, keeps or weakens every verdict.
pub proof fn lemma_larger_age_never_strengthens(
    a1: Cli,
    a2: Cli,
    m: EntryMetadata,
    components_count: int,
    is_dir: bool,
    now: int,
)
    requires
        a1.root@ == a2.root@,
        a1.depth_protection == a2.depth_protection,
        a1.erase == a2.erase,
        a1.ignore_ctime == a2.ignore_ctime,
        a1.enable_puriel == a2.enable_puriel,
        a1.puriel_days == a2.puriel_days,
        a1.age <= a2.age,
    ensures
        purge_rank(entry_purge_state(a2, m, components_count, is_dir, now)) <= purge_rank(
            entry_purge_state(a1, m, components_count, is_dir, now),
        ),
{
}

/// As time passes an entry's verdict only grows stronger.
pub proof fn lemma_verdicts_strengthen_with_time(
    args: Cli,
    m: EntryMetadata,
    components_count: int,
    is_dir: bool,
    now1: int,
    now2: int,
)
    requires
        now1 <= now2,
    ensures
        purge_rank(entry_purge_state(args, m, components_count, is_dir, now1)) <= purge_rank(
            entry_purge_state(args, m, components_count, is_dir, now2),
        ),
{
}

/// What Rafael records for later, Puriel purges once it is due.  A file that
/// Rafael recorded at time `t` with `age` and `puriel_days`, and that has not
/// changed since, is purged by a Puriel run at time `t2` with age `a2` and the
/// same treatment of ctime whenever `t2 - a2 days >= t + puriel_days days - age
/// days`; in particular when Puriel runs `puriel_days` days later with the same
/// age, or right away with the age reduced by `puriel_days`.
pub proof fn lemma_recorded_targets_purged_when_due(
    args: Cli,
    puriel_args: PurielCli,
    m: EntryMetadata,
    components_count: int,
    t: int,
    t2: int,
)
    requires
        entry_purge_state(args, m, components_count, false, t) == EntryPurgeState::PurgeLater,
        puriel_args.ignore_ctime == args.ignore_ctime,
        t2 - DAY_IN_SECS * puriel_args.age >= t + DAY_IN_SECS * args.puriel_days - DAY_IN_SECS
            * args.age,
    ensures
        puriel_purge_state(puriel_args, m, t2) == EntryPurgeState::PurgeNow,
{
}

/// Puriel purges exactly what Rafael's file rule, without erase and without
/// deferral, purges at the same time with the same age.
pub proof fn lemma_puriel_agrees_with_file_rule(
    args: Cli,
    puriel_args: PurielCli,
    m: EntryMetadata,
    components_count: int,
    now: int,
)
    requires
        !args.erase,
        !args.enable_puriel,
        args.age == puriel_args.age,
        args.ignore_ctime == puriel_args.ignore_ctime,
    ensures
        puriel_purge_state(puriel_args, m, now) == entry_purge_state(
            args,
            m,
            components_count,
            false,
            now,
        ),
{
}

/// A dry run deletes nothing, and reports exactly the files a real run would
/// delete.
pub proof fn lemma_dry_run_deletes_nothing(state: EntryPurgeState)
    ensures
        file_action(state, true) != FileAction::Delete,
        (file_action(state, true) == FileAction::ReportWouldDelete) == (file_action(state, false)
            == FileAction::Delete),
        file_action(state, true) == FileAction::RecordPurielTarget <==> file_action(state, false)
            == FileAction::RecordPurielTarget,
{
}


/// The time the rules judge an entry by is the newest of the timestamps they
/// look at: access and modification time, and change time unless ignored.  It
/// is one of them and no older than any of them.
pub proof fn lemma_newest_time_is_the_newest(m: EntryMetadata, ignore_ctime: bool)
    ensures
        newest_time(m, ignore_ctime) >= m.atime,
        newest_time(m, ignore_ctime) >= m.mtime,
        !ignore_ctime ==> newest_time(m, ignore_ctime) >= m.ctime,
        newest_time(m, ignore_ctime) == m.atime || newest_time(m, ignore_ctime) == m.mtime || (
        !ignore_ctime && newest_time(m, ignore_ctime) == m.ctime),
{
}

/// When an entry is purged now.  Without erase and outside the protected
/// levels, an entry not owned by root is purged now exactly when every
/// timestamp the rules look at is more than `age` days before `now`: one
/// access, modification or (unless ignored) change within that time keeps it
/// from being purged now.
pub proof fn lemma_purge_now_needs_every_timestamp_old(
    args: Cli,
    m: EntryMetadata,
    components_count: int,
    is_dir: bool,
    now: int,
)
    requires
        !args.erase,
        m.uid != 0,
        !(is_dir && path_component_count(args.root@) + args.depth_protection >= components_count),
    ensures
        (entry_purge_state(args, m, components_count, is_dir, now) == EntryPurgeState::PurgeNow) == (
        m.atime < now - DAY_IN_SECS * args.age && m.mtime < now - DAY_IN_SECS * args.age && (
        args.ignore_ctime || m.ctime < now - DAY_IN_SECS * args.age)),
{
}

/// A directory whose path has no more components than the root's plus the
/// protected levels is kept whatever its owner, age or the erase setting; a
/// file is never protected by depth.
pub proof fn lemma_depth_protection_by_components(
    args: Cli,
    m: EntryMetadata,
    components_count: int,
    now: int,
)
    ensures
        path_component_count(args.root@) + args.depth_protection >= components_count
            ==> entry_purge_state(args, m, components_count, true, now) == EntryPurgeState::NotPurgable,
        args.erase ==> entry_purge_state(args, m, components_count, false, now) == EntryPurgeState::PurgeNow,
{
}

/// When a file is recorded for Puriel: only with Puriel enabled, never with
/// erase or for a root-owned file, and exactly when it is not purged now but
/// every timestamp looked at is more than `age - puriel_days` days before
/// `now`.
pub proof fn lemma_purge_later_needs_puriel(
    args: Cli,
    m: EntryMetadata,
    components_count: int,
    now: int,
)
    ensures
        entry_purge_state(args, m, components_count, false, now) == EntryPurgeState::PurgeLater
            ==> args.enable_puriel && !args.erase && m.uid != 0,
        args.enable_puriel && !args.erase && m.uid != 0 ==> ((entry_purge_state(
            args,
            m,
            components_count,
            false,
            now,
        ) == EntryPurgeState::PurgeLater) == (!(m.atime < now - DAY_IN_SECS * args.age
            && m.mtime < now - DAY_IN_SECS * args.age && (args.ignore_ctime || m.ctime < now
            - DAY_IN_SECS * args.age)) && m.atime < now + DAY_IN_SECS * args.puriel_days - DAY_IN_SECS
            * args.age && m.mtime < now + DAY_IN_SECS * args.puriel_days - DAY_IN_SECS * args.age && (
        args.ignore_ctime || m.ctime < now + DAY_IN_SECS * args.puriel_days - DAY_IN_SECS * args.age))),
{
}

/// Puriel purges a recorded target exactly when it is not owned by root and
/// every timestamp looked at is more than `age` days before `now`; it never
/// defers.
pub proof fn lemma_puriel_verdict_by_timestamps(args: PurielCli, m: EntryMetadata, now: int)
    ensures
        puriel_purge_state(args, m, now) != EntryPurgeState::PurgeLater,
        (puriel_purge_state(args, m, now) == EntryPurgeState::PurgeNow) == (m.uid != 0 && m.atime < now
            - DAY_IN_SECS * args.age && m.mtime < now - DAY_IN_SECS * args.age && (args.ignore_ctime
            || m.ctime < now - DAY_IN_SECS * args.age)),
{
}

/// Each verdict has its one action.  `NotPurgable` is kept in both modes;
/// `PurgeNow` is deleted, or reported when `dry_run` is set; `PurgeLater` is
/// recorded for Puriel.
pub proof fn lemma_file_action_by_verdict(state: EntryPurgeState, dry_run: bool)
    ensures
        state == EntryPurgeState::NotPurgable ==> file_action(state, dry_run) == FileAction::Keep,
        (file_action(state, dry_run) == FileAction::Delete) == (state == EntryPurgeState::PurgeNow
            && !dry_run),
        (file_action(state, dry_run) == FileAction::ReportWouldDelete) == (state
            == EntryPurgeState::PurgeNow && dry_run),
        (file_action(state, dry_run) == FileAction::RecordPurielTarget) == (state
            == EntryPurgeState::PurgeLater),
        (file_action(state, dry_run) == FileAction::Keep) == (state == EntryPurgeState::NotPurgable),
{
}

} // verus!
