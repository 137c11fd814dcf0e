//! What a worker does with each entry of the directory it scans: skip `.`
//! and `..`, queue subdirectories round robin or prune them, process files,
//! and mark the directory as no longer purgeable because of anything else.

use vstd::prelude::*;
use crate::purger::chars_of;
use crate::metadata_utils::EntryPurgeState;

verus! {

/// Bit mask of the file-type bits of a mode (`S_IFMT`).
pub const FILE_TYPE_MASK: u16 = 0o170000;
/// Directory (`S_IFDIR`).
pub const TYPE_DIRECTORY: u16 = 0o040000;
/// Regular file (`S_IFREG`).
pub const TYPE_REGULAR: u16 = 0o100000;
/// Socket (`S_IFSOCK`).
pub const TYPE_SOCKET: u16 = 0o140000;
/// Symbolic link (`S_IFLNK`).
pub const TYPE_SYMLINK: u16 = 0o120000;
/// Block device (`S_IFBLK`).
pub const TYPE_BLOCK_DEVICE: u16 = 0o060000;
/// Character device (`S_IFCHR`).
pub const TYPE_CHAR_DEVICE: u16 = 0o020000;
/// FIFO (`S_IFIFO`).
pub const TYPE_FIFO: u16 = 0o010000;

/// How the purger treats an entry, by its file type.
#[derive(Clone, Copy, PartialEq, Eq, Structural, Debug)]
pub enum EntryKind {
    /// A directory: scanned by some worker.
    Directory,
    /// A regular file, socket or symbolic link: may be purged.
    FileLike,
    /// A block or character device or a FIFO: never purged.
    Device,
    /// Any other file type.
    Unknown,
}

/// The kind of an entry with the given file-type bits.
pub open spec fn kind_of_type(file_type: u16) -> EntryKind {
    if file_type == TYPE_DIRECTORY {
        EntryKind::Directory
    } else if file_type == TYPE_REGULAR || file_type == TYPE_SOCKET || file_type == TYPE_SYMLINK {
        EntryKind::FileLike
    } else if file_type == TYPE_BLOCK_DEVICE || file_type == TYPE_CHAR_DEVICE || file_type
        == TYPE_FIFO {
        EntryKind::Device
    } else {
        EntryKind::Unknown
    }
}

/// The kind of an entry, from the file-type bits of its mode.
pub fn entry_kind(mode: u16) -> (kind: EntryKind)
    ensures
        kind == kind_of_type(mode & FILE_TYPE_MASK),
{
    let file_type = mode & FILE_TYPE_MASK;
    if file_type == TYPE_DIRECTORY {
        EntryKind::Directory
    } else if file_type == TYPE_REGULAR || file_type == TYPE_SOCKET || file_type == TYPE_SYMLINK {
        EntryKind::FileLike
    } else if file_type == TYPE_BLOCK_DEVICE || file_type == TYPE_CHAR_DEVICE || file_type
        == TYPE_FIFO {
        EntryKind::Device
    } else {
        EntryKind::Unknown
    }
}

/// Whether a directory entry is `.` or `..`, which are skipped.
pub fn is_dot_entry(name: &str) -> (dot: bool)
    ensures
        dot == (name@ == seq!['.'] || name@ == seq!['.', '.']),
{
    let c = chars_of(name);
    if c.len() == 1 {
        let dot = c[0] == '.';
        assert(dot ==> c@ =~= seq!['.']);
        dot
    } else if c.len() == 2 {
        let dot = c[0] == '.' && c[1] == '.';
        assert(dot ==> c@ =~= seq!['.', '.']);
        assert(c@ == seq!['.'] ==> c@.len() == 1);
        dot
    } else {
        assert(c@ == seq!['.'] ==> c@.len() == 1);
        assert(c@ == seq!['.', '.'] ==> c@.len() == 2);
        false
    }
}

/// What to do with an entry of a scanned directory.
#[derive(Clone, Copy, PartialEq, Eq, Structural, Debug)]
pub enum EntryPlan {
    /// Push the subdirectory onto this worker queue.
    QueueDirectory { queue: usize },
    /// The subdirectory is an exception or is owned by root: do not scan it,
    /// and the scanned directory's candidate is no longer removable.
    PruneDirectory,
    /// Evaluate the file against the age rules.
    ProcessFile,
    /// The scanned directory is no longer purgeable: the entry's metadata could
    /// not be read, or it is a device, a FIFO or of unknown type.
    MarkNotPurgable,
}

/// The plan for an entry of kind `kind` (`None` when its metadata could not be
/// read) at position `count` of the scan; `excepted` tells whether its path is
/// an exception and `owned_by_root` whether its owner is root.
pub open spec fn entry_plan(
    kind: Option<EntryKind>,
    excepted: bool,
    owned_by_root: bool,
    count: int,
    thread_count: int,
) -> EntryPlan {
    match kind {
        None => EntryPlan::MarkNotPurgable,
        Some(EntryKind::Directory) => if excepted || owned_by_root {
            EntryPlan::PruneDirectory
        } else {
            EntryPlan::QueueDirectory { queue: (count % thread_count) as usize }
        },
        Some(EntryKind::FileLike) => EntryPlan::ProcessFile,
        Some(_) => EntryPlan::MarkNotPurgable,
    }
}

/// The plan for an entry of a scanned directory.  Subdirectories that are
/// exceptions (see `is_path_an_exception`) or are owned by root are pruned;
/// the others go round robin to the queue of their position `count` modulo
/// the number of workers.
pub fn plan_entry(
    kind: Option<EntryKind>,
    excepted: bool,
    owned_by_root: bool,
    count: usize,
    thread_count: usize,
) -> (plan: EntryPlan)
    requires
        kind == Some(EntryKind::Directory) && !excepted && !owned_by_root ==> thread_count > 0,
    ensures
        plan == entry_plan(kind, excepted, owned_by_root, count as int, thread_count as int),
{
    match kind {
        None => EntryPlan::MarkNotPurgable,
        Some(EntryKind::Directory) => {
            if excepted || owned_by_root {
                EntryPlan::PruneDirectory
            } else {
                EntryPlan::QueueDirectory { queue: count % thread_count }
            }
        },
        Some(EntryKind::FileLike) => EntryPlan::ProcessFile,
        Some(_) => EntryPlan::MarkNotPurgable,
    }
}

/// Whether the scanned directory is still purgeable after an entry: it stays
/// so unless the plan marks it otherwise or a processed file was not purged.
pub fn directory_still_purgable(purgable: bool, plan: EntryPlan, file_purged: bool) -> (still: bool)
    ensures
        still == (purgable && entry_keeps_directory_purgable(plan, file_purged)),
        plan is QueueDirectory || plan == EntryPlan::PruneDirectory ==> still == purgable,
        plan == EntryPlan::ProcessFile ==> still == (purgable && file_purged),
        plan == EntryPlan::MarkNotPurgable ==> !still,
{
    match plan {
        EntryPlan::MarkNotPurgable => false,
        EntryPlan::ProcessFile => purgable && file_purged,
        _ => purgable,
    }
}

/// How the scan of a directory begins, from the directory's own verdict.
#[derive(Clone, Copy, PartialEq, Eq, Structural, Debug)]
pub struct ScanStart {
    /// The directory becomes a candidate for removal, and starts purgeable.
    pub candidate: bool,
    /// The candidate of the directory's parent, if there is one, is marked to
    /// be kept: a directory that is not purgeable keeps its parent.
    pub mark_parent: bool,
}

/// The start of the scan of a directory with verdict `verdict`.  A directory
/// is never deferred, so `PurgeLater` is no verdict for one.
pub fn begin_scan(verdict: EntryPurgeState) -> (start: ScanStart)
    requires
        verdict != EntryPurgeState::PurgeLater,
    ensures
        start.candidate == (verdict == EntryPurgeState::PurgeNow),
        start.mark_parent == (verdict != EntryPurgeState::PurgeNow),
{
    let candidate = match verdict {
        EntryPurgeState::PurgeNow => true,
        _ => false,
    };
    ScanStart { candidate, mark_parent: !candidate }
}

/// The position of entry `k` (counting from 0) in the scan made by worker
/// `thread_position`: the first entry goes to the queue after the worker's own.
pub fn entry_position(thread_position: usize, k: usize) -> (count: usize)
    requires
        thread_position + 1 + k <= usize::MAX,
    ensures
        count == thread_position + 1 + k,
{
    thread_position + 1 + k
}

/// Whether an entry's plan marks the scanned directory's candidate to be kept
/// at once: a pruned subdirectory stays, and so does the directory holding it.
pub fn plan_marks_candidate(plan: EntryPlan) -> (mark: bool)
    ensures
        mark == (plan == EntryPlan::PruneDirectory),
{
    match plan {
        EntryPlan::PruneDirectory => true,
        _ => false,
    }
}

/// Whether the end of a scan marks the scanned directory's candidate to be
/// kept: exactly when some entry cleared its purgeability.
pub fn scan_end_marks_candidate(still_purgable: bool) -> (mark: bool)
    ensures
        mark == !still_purgable,
{
    !still_purgable
}

/// A queued subdirectory always goes to one of the workers' queues.
pub proof fn lemma_queued_directories_in_range(
    kind: Option<EntryKind>,
    excepted: bool,
    owned_by_root: bool,
    count: int,
    thread_count: int,
)
    requires
        0 <= count,
        0 < thread_count,
    ensures
        entry_plan(kind, excepted, owned_by_root, count, thread_count) matches EntryPlan::QueueDirectory {
            queue,
        } ==> queue < thread_count,
{
}

/// Exceptions and directories owned by root are never scanned; a directory
/// that is neither is scanned.  Anything that is neither a directory nor a
/// regular file, socket or symbolic link keeps its directory.
pub proof fn lemma_exceptions_never_queued(
    kind: Option<EntryKind>,
    excepted: bool,
    owned_by_root: bool,
    count: int,
    thread_count: int,
)
    ensures
        excepted || owned_by_root ==> !(entry_plan(kind, excepted, owned_by_root, count, thread_count) is QueueDirectory),
        kind == Some(EntryKind::Directory) ==> ((entry_plan(kind, excepted, owned_by_root, count, thread_count)
            == EntryPlan::PruneDirectory) == (excepted || owned_by_root)),
        (kind == Some(EntryKind::Device) || kind == Some(EntryKind::Unknown) || kind is None)
            ==> entry_plan(kind, excepted, owned_by_root, count, thread_count) == EntryPlan::MarkNotPurgable,
{
}


/// Whether an entry, planned as `plan` and, for a processed file, purged or
/// not, lets its directory stay purgeable.
pub open spec fn entry_keeps_directory_purgable(plan: EntryPlan, file_purged: bool) -> bool {
    plan != EntryPlan::MarkNotPurgable && !(plan == EntryPlan::ProcessFile && !file_purged)
}

/// Whether a directory is still purgeable after its first `k` entries.
pub open spec fn purgable_after(
    initial: bool,
    plans: Seq<EntryPlan>,
    purged: Seq<bool>,
    k: int,
) -> bool
    decreases k,
{
    if k <= 0 {
        initial
    } else {
        purgable_after(initial, plans, purged, k - 1) && entry_keeps_directory_purgable(
            plans[k - 1],
            purged[k - 1],
        )
    }
}

/// Scanning a directory entry by entry, it stays purgeable exactly when it was
/// purgeable to begin with and every entry lets it stay so; once lost,
/// purgeability never comes back.
pub proof fn lemma_purgability_needs_every_entry(
    initial: bool,
    plans: Seq<EntryPlan>,
    purged: Seq<bool>,
    k: int,
)
    requires
        0 <= k <= plans.len(),
        plans.len() == purged.len(),
    ensures
        purgable_after(initial, plans, purged, k) == (initial && forall|i: int|
            0 <= i < k ==> #[trigger] entry_keeps_directory_purgable(plans[i], purged[i])),
    decreases k,
{
    if k > 0 {
        lemma_purgability_needs_every_entry(initial, plans, purged, k - 1);
        if purgable_after(initial, plans, purged, k) {
            assert forall|i: int| 0 <= i < k implies #[trigger] entry_keeps_directory_purgable(
                plans[i],
                purged[i],
            ) by {
                if i < k - 1 {
                }
            }
        }
    }
}


/// Only two things clear a scanned directory's purgeability: an entry that
/// marks it (unreadable metadata, a device, a FIFO or an unknown type) and a
/// file that was processed but not purged.  Queuing or pruning a subdirectory
/// and purging a file leave it as it was.
pub proof fn lemma_what_clears_purgability(purgable: bool, plan: EntryPlan, file_purged: bool)
    ensures
        forall|q: usize| #[trigger] entry_keeps_directory_purgable(EntryPlan::QueueDirectory { queue: q }, file_purged),
        entry_keeps_directory_purgable(EntryPlan::PruneDirectory, file_purged),
        entry_keeps_directory_purgable(EntryPlan::ProcessFile, true),
        !entry_keeps_directory_purgable(EntryPlan::ProcessFile, false),
        !entry_keeps_directory_purgable(EntryPlan::MarkNotPurgable, file_purged),
        (plan is QueueDirectory || plan == EntryPlan::PruneDirectory) ==> purgable_after(
            purgable,
            seq![plan],
            seq![file_purged],
            1,
        ) == purgable,
{
    reveal_with_fuel(purgable_after, 2);
}

/// The plan of each kind of entry.  A subdirectory that is neither an
/// exception nor owned by root goes to queue `count mod thread_count`; one that
/// is either is pruned; a regular file, socket or symbolic link is processed;
/// anything else, or an entry whose metadata could not be read, marks the
/// directory.
pub proof fn lemma_plan_by_kind(
    kind: Option<EntryKind>,
    excepted: bool,
    owned_by_root: bool,
    count: int,
    thread_count: int,
)
    requires
        0 <= count,
        0 < thread_count,
    ensures
        kind == Some(EntryKind::Directory) && !excepted && !owned_by_root ==> entry_plan(
            kind,
            excepted,
            owned_by_root,
            count,
            thread_count,
        ) == (EntryPlan::QueueDirectory { queue: (count % thread_count) as usize }),
        kind == Some(EntryKind::Directory) && (excepted || owned_by_root) ==> entry_plan(
            kind,
            excepted,
            owned_by_root,
            count,
            thread_count,
        ) == EntryPlan::PruneDirectory,
        kind == Some(EntryKind::FileLike) ==> entry_plan(kind, excepted, owned_by_root, count, thread_count)
            == EntryPlan::ProcessFile,
        kind is None || kind == Some(EntryKind::Device) || kind == Some(EntryKind::Unknown)
            ==> entry_plan(kind, excepted, owned_by_root, count, thread_count) == EntryPlan::MarkNotPurgable,
{
}


/// The kinds of the Unix file types (`S_IFMT` bits `0o170000`): directories
/// (`0o040000`) are scanned; regular files (`0o100000`), sockets (`0o140000`)
/// and symbolic links (`0o120000`) may be purged; block (`0o060000`) and
/// character (`0o020000`) devices and FIFOs (`0o010000`) are never purged;
/// nothing else is any of these.
pub proof fn lemma_kinds_of_file_types(mode: u16)
    ensures
        (kind_of_type(mode & 0o170000u16) == EntryKind::Directory) == (mode & 0o170000u16 == 0o040000u16),
        (kind_of_type(mode & 0o170000u16) == EntryKind::FileLike) == (mode & 0o170000u16 == 0o100000u16
            || mode & 0o170000u16 == 0o140000u16 || mode & 0o170000u16 == 0o120000u16),
        (kind_of_type(mode & 0o170000u16) == EntryKind::Device) == (mode & 0o170000u16 == 0o060000u16
            || mode & 0o170000u16 == 0o020000u16 || mode & 0o170000u16 == 0o010000u16),
        FILE_TYPE_MASK == 0o170000u16,
{
}

} // verus!
