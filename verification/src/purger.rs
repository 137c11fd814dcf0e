//! Rafael's run settings, statistics and results, the exception filter, the
//! assignment of the root directory's entries to the worker queues and the
//! per-entry log line.

use vstd::prelude::*;
use rand::seq::SliceRandom;
use crate::text::{signed_decimal, decimal, push_decimal};
use crate::metadata_utils::clock_now;

verus! {

/// The settings of a Rafael run.  Paths are held as text.
pub struct Cli {
    /// Root of tree to traverse and purge.
    pub root: String,
    /// Number of worker threads.
    pub thread_count: usize,
    /// Log directory.
    pub rp_log_dir: String,
    /// Age of files to delete, in days (`-1` when not given).
    pub age: i64,
    /// Exception file: directory names to prune.
    pub exception: String,
    /// Ignore change time and only evaluate modify and access times.
    pub ignore_ctime: bool,
    /// Number of directory levels below the root that are never purged.
    pub depth_protection: usize,
    /// Report what would be purged without deleting anything.
    pub dry_run: bool,
    /// Verbosity level (0 to 2) for the traversal of the workers.
    pub verbosity: u8,
    /// Show a progress bar.
    pub show_progress: bool,
    /// Read all the entries of a directory before evaluating them.
    pub read_entire_dir: bool,
    /// Entry count that gauges the progress bar (0: used inodes).
    pub entry_count: u64,
    /// Print per-worker statistics.
    pub thread_stats: bool,
    /// Delete all contents of the root directory.
    pub erase: bool,
    /// Do not shuffle the entries of the root directory.
    pub no_shuffle_root: bool,
    /// Record entries that will become purgeable for Puriel.
    pub enable_puriel: bool,
    /// Days ahead for which Puriel targets are recorded.
    pub puriel_days: i64,
    /// Directory for the Puriel target files.
    pub pr_target_dir: String,
}

/// Counters of a Rafael run.
pub struct PurgeStatistics {
    pub files_checked: usize,
    pub files_purged: usize,
    pub directories_checked: usize,
    pub directories_purged: usize,
    /// Files recorded for Puriel; present only when Puriel is enabled.
    pub puriel_items: Option<usize>,
}

impl PurgeStatistics {
    /// The number of files recorded for Puriel.  Only runs with Puriel enabled
    /// keep this counter.
    pub fn get_puriel_items(&self) -> (items: usize)
        requires
            self.puriel_items is Some,
        ensures
            items == self.puriel_items->0,
    {
        match self.puriel_items {
            Some(items) => items,
            None => 0,
        }
    }
}

/// A directory waiting in a worker queue, with the handle of its parent's purge
/// candidate when the parent is itself a candidate for removal.  The path is
/// held as the bytes the operating system gave, so that names that are not
/// UTF-8 are walked too.
pub struct WorkItem<P> {
    pub path: Vec<u8>,
    pub parent: Option<P>,
}

/// A counter after one more event.  The counters are atomics that wrap on
/// overflow.
pub open spec fn counted_once(n: usize) -> usize {
    if n == usize::MAX {
        0
    } else {
        (n + 1) as usize
    }
}

/// Elapsed time, as whole seconds and the nanoseconds beyond them.
#[derive(Clone, Copy, PartialEq, Eq, Structural, Debug)]
pub struct ElapsedTime {
    pub secs: u64,
    pub subsec_nanos: u32,
}

impl ElapsedTime {
    /// Whole milliseconds.
    pub open spec fn millis(self) -> nat {
        (self.secs * 1000 + self.subsec_nanos / 1_000_000) as nat
    }

    /// Whole milliseconds, as `Duration::as_millis` gives them.
    pub fn as_millis(&self) -> (ms: u128)
        ensures
            ms == self.millis(),
    {
        self.secs as u128 * 1000 + (self.subsec_nanos / 1_000_000) as u128
    }
}

/// What a Rafael run reports at its end.
pub struct PurgeResults {
    pub purge_statistics: PurgeStatistics,
    /// (Directories purged, size of the directories purged in bytes)
    pub directories_purged_statistics: (usize, usize),
    pub time: ElapsedTime,
}

/// Whether `pattern` occurs in `text` starting at position `start`.
pub open spec fn occurs_at_spec(text: Seq<char>, pattern: Seq<char>, start: int) -> bool {
    &&& 0 <= start
    &&& start + pattern.len() <= text.len()
    &&& text.subrange(start, start + pattern.len()) == pattern
}

/// Whether `pattern` occurs in `text` as a contiguous piece.
pub open spec fn contains_text(text: Seq<char>, pattern: Seq<char>) -> bool {
    exists|start: int| #[trigger] occurs_at_spec(text, pattern, start)
}

/// Whether some exception occurs in the directory's path.
pub open spec fn matches_exception(exceptions: Seq<String>, path: Seq<char>) -> bool {
    exists|i: int| 0 <= i < exceptions.len() && contains_text(path, #[trigger] exceptions[i]@)
}

fn occurs_at(text: &Vec<char>, pattern: &Vec<char>, start: usize) -> (found: bool)
    requires
        start + pattern.len() <= text.len(),
    ensures
        found == (text@.subrange(start as int, start + pattern.len()) == pattern@),
{
    let mut k: usize = 0;
    while k < pattern.len()
        invariant
            start + pattern.len() <= text.len(),
            k <= pattern.len(),
            forall|j: int| 0 <= j < k ==> text@[start + j] == pattern@[j],
        decreases pattern.len() - k,
    {
        if text[start + k] != pattern[k] {
            assert(text@.subrange(start as int, start + pattern.len())[k as int] != pattern@[k as int]);
            return false;
        }
        k = k + 1;
    }
    assert(text@.subrange(start as int, start + pattern.len()) =~= pattern@);
    true
}

pub(crate) fn chars_of(s: &str) -> (chars: Vec<char>)
    ensures
        chars@ == s@,
{
    let mut chars: Vec<char> = Vec::new();
    for c in it: s.chars()
        invariant
            chars@ == it.seq().take(it.index() as int),
            it.seq() == s@,
    {
        chars.push(c);
    }
    chars
}

/// Whether `pattern` occurs in `text`, as `str::contains` answers it.
pub fn contains_str(text: &str, pattern: &str) -> (found: bool)
    ensures
        found == contains_text(text@, pattern@),
{
    let t = chars_of(text);
    let p = chars_of(pattern);
    if p.len() > t.len() {
        assert forall|s: int| !#[trigger] occurs_at_spec(text@, pattern@, s) by {}
        return false;
    }
    let last = t.len() - p.len();
    let mut start: usize = 0;
    while start < last
        invariant
            start <= last,
            last + p.len() == t.len(),
            t@ == text@,
            p@ == pattern@,
            forall|s: int| 0 <= s < start ==> !#[trigger] occurs_at_spec(text@, pattern@, s),
        decreases last - start,
    {
        if occurs_at(&t, &p, start) {
            assert(occurs_at_spec(text@, pattern@, start as int));
            return true;
        }
        start = start + 1;
    }
    if occurs_at(&t, &p, start) {
        assert(occurs_at_spec(text@, pattern@, start as int));
        return true;
    }
    assert forall|s: int| !#[trigger] occurs_at_spec(text@, pattern@, s) by {
        if 0 <= s && s + p.len() <= t.len() {
            assert(s <= start);
        }
    }
    false
}

/// Whether the directory is an exception: some exception occurs in its path.
/// Both sides are compared as given; callers lowercase them.
pub fn is_dir_an_exception(exceptions: &Vec<String>, directory_to_check: &String) -> (found: bool)
    ensures
        found == matches_exception(exceptions@, directory_to_check@),
{
    let mut i: usize = 0;
    while i < exceptions.len()
        invariant
            i <= exceptions.len(),
            forall|j: int| 0 <= j < i ==> !contains_text(directory_to_check@, #[trigger] exceptions@[j]@),
        decreases exceptions.len() - i,
    {
        if contains_str(directory_to_check.as_str(), exceptions[i].as_str()) {
            return true;
        }
        i = i + 1;
    }
    false
}


/// The lowercase form of a text, as `str::to_lowercase` gives it.
pub uninterp spec fn lowercase_text(s: Seq<char>) -> Seq<char>;

/// `str::to_lowercase`: full Unicode lowercasing.  The contract names the
/// result `lowercase_text`; the Unicode case tables are std's and are not
/// restated here.
#[verifier::external_body]
fn to_lowercase(s: &str) -> (lower: String)
    ensures
        lower@ == lowercase_text(s@),
{
    s.to_lowercase()
}

/// The exceptions as matched: each line of the exception file, lowercased, in
/// order.  Matching is case-insensitive because both sides are lowercased.
pub fn lowercase_exceptions(lines: &Vec<String>) -> (exceptions: Vec<String>)
    ensures
        exceptions@.len() == lines@.len(),
        forall|i: int| 0 <= i < lines@.len() ==> #[trigger] exceptions@[i]@ == lowercase_text(lines@[i]@),
{
    let mut exceptions: Vec<String> = Vec::new();
    let mut i: usize = 0;
    while i < lines.len()
        invariant
            i <= lines.len(),
            exceptions@.len() == i,
            forall|j: int| 0 <= j < i ==> #[trigger] exceptions@[j]@ == lowercase_text(lines@[j]@),
        decreases lines.len() - i,
    {
        exceptions.push(to_lowercase(lines[i].as_str()));
        i = i + 1;
    }
    exceptions
}

/// Whether a directory's path, lowercased, contains one of the exceptions.
pub open spec fn path_is_exception(exceptions: Seq<String>, path: Seq<char>) -> bool {
    matches_exception(exceptions, lowercase_text(path))
}

/// Whether a directory is pruned: its lowercased path contains an exception.
pub fn is_path_an_exception(exceptions: &Vec<String>, path: &str) -> (found: bool)
    ensures
        found == path_is_exception(exceptions@, path@),
{
    let lower = to_lowercase(path);
    is_dir_an_exception(exceptions, &lower)
}

/// An entry of the root directory after its `statx`: its path as the
/// operating system's bytes, the same path as printable text (what exceptions
/// are matched against), and whether it is a directory (and not a symbolic
/// link to one).  Entries whose metadata could not be read are not directories.
pub struct RootEntry {
    pub path: Vec<u8>,
    pub path_text: String,
    pub is_dir: bool,
}

/// Whether a root entry becomes work: a directory that is not an exception.
pub open spec fn root_entry_selected(exceptions: Seq<String>, e: RootEntry) -> bool {
    e.is_dir && !path_is_exception(exceptions, e.path_text@)
}

/// The paths, among the first `upto` items, that are selected and whose
/// position is `queue` modulo `queue_count`, in order.
pub open spec fn round_robin_share<T>(
    paths: Seq<T>,
    selected: Seq<bool>,
    queue_count: nat,
    queue: int,
    upto: int,
) -> Seq<T>
    decreases upto,
{
    if upto <= 0 {
        Seq::empty()
    } else {
        let before = round_robin_share(paths, selected, queue_count, queue, upto - 1);
        if selected[upto - 1] && (upto - 1) % (queue_count as int) == queue {
            before.push(paths[upto - 1])
        } else {
            before
        }
    }
}

pub open spec fn entry_paths(entries: Seq<RootEntry>) -> Seq<Seq<u8>> {
    entries.map_values(|e: RootEntry| e.path@)
}

pub open spec fn entry_selection(exceptions: Seq<String>, entries: Seq<RootEntry>) -> Seq<bool> {
    entries.map_values(|e: RootEntry| root_entry_selected(exceptions, e))
}

pub open spec fn item_paths<P>(items: Seq<WorkItem<P>>) -> Seq<Seq<u8>> {
    items.map_values(|w: WorkItem<P>| w.path@)
}

/// `SliceRandom::shuffle` with the thread's random generator.  What holds of
/// every outcome is stated: the paths are permuted.
#[verifier::external_body]
fn shuffle_paths<T>(paths: &mut Vec<T>)
    ensures
        final(paths)@.to_multiset() == old(paths)@.to_multiset(),
{
    paths.shuffle(&mut rand::thread_rng());
}

/// Orders the entries of the root directory for the walk: shuffled, to balance
/// the workers on very large file systems, unless `no_shuffle_root` is set.
pub fn order_root_paths<T>(args: &Cli, paths: &mut Vec<T>)
    ensures
        final(paths)@.to_multiset() == old(paths)@.to_multiset(),
        args.no_shuffle_root ==> final(paths)@ == old(paths)@,
{
    if !args.no_shuffle_root {
        shuffle_paths(paths);
    }
}

/// The first-level work of a run: each entry of the root directory that is a
/// directory and not an exception goes, without a parent, to the queue of its
/// position modulo the number of workers.  Positions count every entry, also
/// those that are skipped.  With no workers there are no queues.  The root
/// directory itself counts as one directory checked.
pub fn root_dir_walk<P>(
    args: &Cli,
    stats: &mut PurgeStatistics,
    entries: &Vec<RootEntry>,
    exceptions: &Vec<String>,
) -> (queues: Vec<Vec<WorkItem<P>>>)
    ensures
        final(stats).directories_checked == counted_once(old(stats).directories_checked),
        final(stats).files_checked == old(stats).files_checked,
        final(stats).files_purged == old(stats).files_purged,
        final(stats).directories_purged == old(stats).directories_purged,
        final(stats).puriel_items == old(stats).puriel_items,
        queues@.len() == args.thread_count,
        forall|q: int|
            0 <= q < args.thread_count ==> #[trigger] item_paths(queues@[q]@) == round_robin_share(
                entry_paths(entries@),
                entry_selection(exceptions@, entries@),
                args.thread_count as nat,
                q,
                entries@.len() as int,
            ),
        forall|q: int, k: int|
            0 <= q < args.thread_count && 0 <= k < queues@[q]@.len() ==> (#[trigger] queues@[q]@[k]).parent is None,
{
    stats.directories_checked = if stats.directories_checked == usize::MAX {
        0
    } else {
        stats.directories_checked + 1
    };
    let n = args.thread_count;
    let ghost paths = entry_paths(entries@);
    let ghost sel = entry_selection(exceptions@, entries@);
    let mut selected: Vec<bool> = Vec::new();
    let mut i: usize = 0;
    while i < entries.len()
        invariant
            i <= entries.len(),
            selected@.len() == i,
            forall|j: int| 0 <= j < i ==> #[trigger] selected@[j] == sel[j],
            sel == entry_selection(exceptions@, entries@),
        decreases entries.len() - i,
    {
        let e = &entries[i];
        let keep = e.is_dir && !is_path_an_exception(exceptions, e.path_text.as_str());
        selected.push(keep);
        i = i + 1;
    }
    assert(selected@ =~= sel);
    let mut queues: Vec<Vec<WorkItem<P>>> = Vec::new();
    let mut q: usize = 0;
    while q < n
        invariant
            q <= n,
            n == args.thread_count,
            selected@ == sel,
            paths == entry_paths(entries@),
            sel.len() == entries@.len(),
            queues@.len() == q,
            forall|r: int|
                0 <= r < q ==> #[trigger] item_paths(queues@[r]@) == round_robin_share(
                    paths,
                    sel,
                    n as nat,
                    r,
                    entries@.len() as int,
                ),
            forall|r: int, k: int|
                0 <= r < q && 0 <= k < queues@[r]@.len() ==> (#[trigger] queues@[r]@[k]).parent is None,
        decreases n - q,
    {
        let mut items: Vec<WorkItem<P>> = Vec::new();
        let mut i: usize = 0;
        while i < entries.len()
            invariant
                i <= entries.len(),
                q < n,
                selected@ == sel,
                paths == entry_paths(entries@),
                sel.len() == entries@.len(),
                item_paths(items@) == round_robin_share(paths, sel, n as nat, q as int, i as int),
                forall|k: int| 0 <= k < items@.len() ==> (#[trigger] items@[k]).parent is None,
            decreases entries.len() - i,
        {
            let ghost before = items@;
            if selected[i] && i % n == q {
                items.push(WorkItem { path: entries[i].path.clone(), parent: None });
                assert(item_paths(items@) =~= item_paths(before).push(paths[i as int]));
            }
            i = i + 1;
        }
        queues.push(items);
        proof {
            assert forall|r: int|
                0 <= r < q + 1 implies #[trigger] item_paths(queues@[r]@) == round_robin_share(
                paths,
                sel,
                n as nat,
                r,
                entries@.len() as int,
            ) by {
                if r < q {
                } else {
                    assert(queues@[r] == items);
                }
            }
        }
        q = q + 1;
    }
    queues
}


/// `WOULD DELETE` in a dry run, else `DELETING`.
pub open spec fn deletion_word(dry_run: bool) -> Seq<char> {
    if dry_run {
        "WOULD DELETE"@
    } else {
        "DELETING"@
    }
}

/// A line of a worker's log, without its newline:
/// `<now>: <WOULD DELETE|DELETING> <path>: atime=<a> ctime=<c> mtime=<m> UID=<uid>`.
pub open spec fn log_entry_text(
    now: int,
    dry_run: bool,
    path: Seq<char>,
    atime: int,
    ctime: int,
    mtime: int,
    uid: nat,
) -> Seq<char> {
    signed_decimal(now) + ": "@ + deletion_word(dry_run) + " "@ + path + ": atime="@ + signed_decimal(atime)
        + " ctime="@ + signed_decimal(ctime) + " mtime="@ + signed_decimal(mtime) + " UID="@
        + decimal(uid)
}

fn push_signed(out: &mut String, i: i64)
    ensures
        final(out)@ == old(out)@ + signed_decimal(i as int),
{
    let s = crate::text::signed_decimal_string(i);
    out.append(s.as_str());
}

/// The log line for a purged (or, in a dry run, purgeable) entry, stamped
/// with `now`.
pub fn format_log_entry(
    now: i64,
    dry_run: bool,
    target_path: &str,
    atime: i64,
    ctime: i64,
    mtime: i64,
    uid: u32,
) -> (line: String)
    ensures
        line@ == log_entry_text(
            now as int,
            dry_run,
            target_path@,
            atime as int,
            ctime as int,
            mtime as int,
            uid as nat,
        ),
{
    let mut line = String::new();
    push_signed(&mut line, now);
    line.append(": ");
    line.append(if dry_run {
        "WOULD DELETE"
    } else {
        "DELETING"
    });
    line.append(" ");
    line.append(target_path);
    line.append(": atime=");
    push_signed(&mut line, atime);
    line.append(" ctime=");
    push_signed(&mut line, ctime);
    line.append(" mtime=");
    push_signed(&mut line, mtime);
    line.append(" UID=");
    push_decimal(&mut line, uid as u128);
    assert(line@ =~= log_entry_text(
        now as int,
        dry_run,
        target_path@,
        atime as int,
        ctime as int,
        mtime as int,
        uid as nat,
    ));
    line
}

/// The log line for an entry, stamped with the current time by the system
/// clock.
pub fn log_entry_now(
    dry_run: bool,
    target_path: &str,
    atime: i64,
    ctime: i64,
    mtime: i64,
    uid: u32,
) -> (line: String)
    ensures
        exists|now: i64|
            line@ == log_entry_text(
                now as int,
                dry_run,
                target_path@,
                atime as int,
                ctime as int,
                mtime as int,
                uid as nat,
            ),
{
    let now = clock_now();
    format_log_entry(now, dry_run, target_path, atime, ctime, mtime, uid)
}


/// The number of selected items among the first `upto`.
pub open spec fn selected_count(selected: Seq<bool>, upto: int) -> nat
    decreases upto,
{
    if upto <= 0 {
        0
    } else {
        selected_count(selected, upto - 1) + if selected[upto - 1] {
            1nat
        } else {
            0nat
        }
    }
}

/// The total length of the shares of queues `0 .. k`.
pub open spec fn shares_total<T>(
    paths: Seq<T>,
    selected: Seq<bool>,
    queue_count: nat,
    k: int,
    upto: int,
) -> nat
    decreases k,
{
    if k <= 0 {
        0
    } else {
        shares_total(paths, selected, queue_count, k - 1, upto) + round_robin_share(
            paths,
            selected,
            queue_count,
            k - 1,
            upto,
        ).len()
    }
}

proof fn lemma_shares_total_step<T>(
    paths: Seq<T>,
    selected: Seq<bool>,
    queue_count: nat,
    k: int,
    upto: int,
)
    requires
        queue_count > 0,
        0 <= k,
        0 <= upto,
    ensures
        shares_total(paths, selected, queue_count, k, upto + 1) == shares_total(
            paths,
            selected,
            queue_count,
            k,
            upto,
        ) + if selected[upto] && upto % (queue_count as int) < k {
            1nat
        } else {
            0nat
        },
    decreases k,
{
    if k > 0 {
        lemma_shares_total_step(paths, selected, queue_count, k - 1, upto);
    }
}

/// Round-robin distribution neither loses nor duplicates work: the queues
/// together hold exactly as many items as were selected.
pub proof fn lemma_round_robin_keeps_every_item<T>(
    paths: Seq<T>,
    selected: Seq<bool>,
    queue_count: nat,
    upto: int,
)
    requires
        queue_count > 0,
        0 <= upto,
    ensures
        shares_total(paths, selected, queue_count, queue_count as int, upto) == selected_count(
            selected,
            upto,
        ),
    decreases upto,
{
    if upto == 0 {
        lemma_shares_total_zero(paths, selected, queue_count, queue_count as int);
    } else {
        lemma_round_robin_keeps_every_item(paths, selected, queue_count, upto - 1);
        lemma_shares_total_step(paths, selected, queue_count, queue_count as int, upto - 1);
    }
}

proof fn lemma_shares_total_zero<T>(
    paths: Seq<T>,
    selected: Seq<bool>,
    queue_count: nat,
    k: int,
)
    ensures
        shares_total(paths, selected, queue_count, k, 0) == 0,
    decreases k,
{
    if k > 0 {
        lemma_shares_total_zero(paths, selected, queue_count, k - 1);
    }
}


/// Exception matching ignores case: two paths with the same lowercase form
/// are pruned alike.
pub proof fn lemma_exceptions_ignore_case(exceptions: Seq<String>, p1: Seq<char>, p2: Seq<char>)
    requires
        lowercase_text(p1) == lowercase_text(p2),
    ensures
        path_is_exception(exceptions, p1) == path_is_exception(exceptions, p2),
{
}


/// An exception matches a path when it occurs in it as a contiguous piece,
/// anywhere: at some position the path's characters are exactly the
/// exception's.
pub proof fn lemma_exception_found_as_a_piece(exceptions: Seq<String>, path: Seq<char>, i: int, start: int)
    requires
        0 <= i < exceptions.len(),
        0 <= start,
        start + exceptions[i]@.len() <= path.len(),
        path.subrange(start, start + exceptions[i]@.len()) == exceptions[i]@,
    ensures
        matches_exception(exceptions, path),
{
    assert(occurs_at_spec(path, exceptions[i]@, start));
}

/// A path that contains none of the exceptions as a contiguous piece is no
/// exception.
pub proof fn lemma_no_piece_no_exception(exceptions: Seq<String>, path: Seq<char>)
    requires
        forall|i: int, start: int|
            0 <= i < exceptions.len() && 0 <= start && start + exceptions[i]@.len() <= path.len()
                ==> #[trigger] path.subrange(start, start + exceptions[i]@.len()) != exceptions[i]@,
    ensures
        !matches_exception(exceptions, path),
{
    if matches_exception(exceptions, path) {
        let i = choose|i: int| 0 <= i < exceptions.len() && contains_text(path, #[trigger] exceptions[i]@);
        let start = choose|start: int| #[trigger] occurs_at_spec(path, exceptions[i]@, start);
        assert(path.subrange(start, start + exceptions[i]@.len()) == exceptions[i]@);
    }
}

/// A root entry is walked exactly when it is a directory and its printable
/// path, lowercased, contains no exception; so two directories whose paths
/// have the same lowercase form are walked alike.
pub proof fn lemma_root_selection_ignores_case(exceptions: Seq<String>, e1: RootEntry, e2: RootEntry)
    ensures
        root_entry_selected(exceptions, e1) == (e1.is_dir && !matches_exception(
            exceptions,
            lowercase_text(e1.path_text@),
        )),
        e1.is_dir == e2.is_dir && lowercase_text(e1.path_text@) == lowercase_text(e2.path_text@)
            ==> root_entry_selected(exceptions, e1) == root_entry_selected(exceptions, e2),
{
}

/// An exception is matched against the lowercased path: a path is pruned
/// exactly when its lowercase form contains an exception.
pub proof fn lemma_pruning_lowercases_the_path(exceptions: Seq<String>, path: Seq<char>)
    ensures
        path_is_exception(exceptions, path) == matches_exception(exceptions, lowercase_text(path)),
{
}


/// Round robin puts each item where its position says: every item of queue
/// `q` is a selected item whose position is `q` modulo the number of queues,
/// and every such item is in queue `q`.
pub proof fn lemma_round_robin_places_items<T>(
    paths: Seq<T>,
    selected: Seq<bool>,
    queue_count: nat,
    q: int,
    upto: int,
)
    requires
        queue_count > 0,
        0 <= upto <= paths.len(),
        upto <= selected.len(),
    ensures
        forall|k: int|
            0 <= k < round_robin_share(paths, selected, queue_count, q, upto).len() ==> exists|j: int|
                0 <= j < upto && selected[j] && j % (queue_count as int) == q && #[trigger] round_robin_share(
                    paths,
                    selected,
                    queue_count,
                    q,
                    upto,
                )[k] == paths[j],
        forall|j: int|
            0 <= j < upto && #[trigger] selected[j] && j % (queue_count as int) == q ==> round_robin_share(
                paths,
                selected,
                queue_count,
                q,
                upto,
            ).contains(paths[j]),
    decreases upto,
{
    if upto > 0 {
        lemma_round_robin_places_items(paths, selected, queue_count, q, upto - 1);
        let before = round_robin_share(paths, selected, queue_count, q, upto - 1);
        let after = round_robin_share(paths, selected, queue_count, q, upto);
        if selected[upto - 1] && (upto - 1) % (queue_count as int) == q {
            assert(after == before.push(paths[upto - 1]));
            assert forall|k: int| 0 <= k < after.len() implies exists|j: int|
                0 <= j < upto && selected[j] && j % (queue_count as int) == q && #[trigger] after[k] == paths[j] by {
                if k < before.len() {
                    assert(after[k] == before[k]);
                    let j = choose|j: int|
                        0 <= j < upto - 1 && selected[j] && j % (queue_count as int) == q && #[trigger] before[k] == paths[j];
                    assert(after[k] == paths[j]);
                } else {
                    assert(after[k] == paths[upto - 1]);
                }
            }
            assert forall|j: int|
                0 <= j < upto && #[trigger] selected[j] && j % (queue_count as int) == q implies after.contains(paths[j]) by {
                if j < upto - 1 {
                    assert(before.contains(paths[j]));
                    let k = choose|k: int| 0 <= k < before.len() && before[k] == paths[j];
                    assert(after[k] == paths[j]);
                } else {
                    assert(after[before.len() as int] == paths[j]);
                }
            }
        }
    }
}

} // verus!
