use rafael::entry_evaluation::{
    begin_scan, directory_still_purgable, entry_kind, entry_position, is_dot_entry, plan_entry,
    plan_marks_candidate, scan_end_marks_candidate, EntryKind, EntryPlan,
};
use rafael::maketree::{
    backdated_time, dir_timestamp_state, file_timestamp_state, subdir_purgable, tree_statistics,
    Cli as TreeCli,
};
use rafael::metadata_utils::{is_depth_protected, EntryPurgeState, DAY_IN_SECS};
use rafael::purger::{
    contains_str, is_dir_an_exception, is_path_an_exception, lowercase_exceptions,
    order_root_paths, root_dir_walk, Cli, PurgeStatistics, RootEntry, WorkItem,
};
use rafael::purge_marks::KeepMarks;
use rafael::puriel_utils::{populate_worker_queues, split_target_lines, target_line, Cli as PurielCli};

fn args(thread_count: usize, no_shuffle_root: bool) -> Cli {
    Cli {
        root: "/data".to_string(),
        thread_count,
        rp_log_dir: "rp_log_dir".to_string(),
        age: 5,
        exception: "exceptions.txt".to_string(),
        ignore_ctime: true,
        depth_protection: 1,
        dry_run: false,
        verbosity: 0,
        show_progress: false,
        read_entire_dir: false,
        entry_count: 0,
        thread_stats: false,
        erase: false,
        no_shuffle_root,
        enable_puriel: false,
        puriel_days: -1,
        pr_target_dir: "pr_targets".to_string(),
    }
}

fn strings(v: &[&str]) -> Vec<String> {
    v.iter().map(|s| s.to_string()).collect()
}

#[test]
fn substring_search() {
    assert!(contains_str("subdir_10", "1"));
    assert!(contains_str("abc", ""));
    assert!(contains_str("abc", "abc"));
    assert!(!contains_str("abc", "abcd"));
    assert!(!contains_str("", "a"));
    assert!(contains_str("héllo wörld", "ö"));
    assert!(!contains_str("aab", "aba"));
}

#[test]
fn exceptions_match_anywhere_in_the_path() {
    let ex = strings(&["0", "1"]);
    assert!(is_dir_an_exception(&ex, &"/data/subdir_0".to_string()));
    assert!(is_dir_an_exception(&ex, &"/data/subdir_21".to_string()));
    assert!(!is_dir_an_exception(&ex, &"/data/subdir_2".to_string()));
    assert!(!is_dir_an_exception(&Vec::new(), &"/data/subdir_2".to_string()));
    // An empty exception line prunes everything.
    assert!(is_dir_an_exception(&strings(&[""]), &"/x".to_string()));
}

#[test]
fn exceptions_are_case_insensitive() {
    let ex = lowercase_exceptions(&strings(&["Keep", "ARCHIVE"]));
    assert_eq!(ex, strings(&["keep", "archive"]));
    assert!(is_path_an_exception(&ex, "/data/KEEP_me"));
    assert!(is_path_an_exception(&ex, "/data/Archive/2020"));
    assert!(!is_path_an_exception(&ex, "/data/other"));
}

fn root_entry(path: &str, is_dir: bool) -> RootEntry {
    RootEntry { path: path.as_bytes().to_vec(), path_text: path.to_string(), is_dir }
}

fn no_counts() -> PurgeStatistics {
    PurgeStatistics {
        files_checked: 0,
        files_purged: 0,
        directories_checked: 0,
        directories_purged: 0,
        puriel_items: None,
    }
}

fn queue_paths(queues: &[Vec<WorkItem<u8>>]) -> Vec<Vec<String>> {
    queues
        .iter()
        .map(|q| q.iter().map(|w| String::from_utf8(w.path.clone()).unwrap()).collect())
        .collect()
}

#[test]
fn root_entries_go_round_robin_by_position() {
    let entries = vec![
        root_entry("/data/a", true),
        root_entry("/data/file", false),
        root_entry("/data/c", true),
        root_entry("/data/skip_me", true),
        root_entry("/data/e", true),
    ];
    let ex = strings(&["skip"]);
    let mut stats = no_counts();
    let queues: Vec<Vec<WorkItem<u8>>> = root_dir_walk(&args(2, true), &mut stats, &entries, &ex);
    assert_eq!(queues.len(), 2);
    let paths = queue_paths(&queues);
    assert_eq!(paths[0], strings(&["/data/a", "/data/c", "/data/e"]));
    assert!(paths[1].is_empty());
    assert!(queues.iter().all(|q| q.iter().all(|w| w.parent.is_none())));
    let queues: Vec<Vec<WorkItem<u8>>> = root_dir_walk(&args(3, true), &mut stats, &entries, &ex);
    let paths = queue_paths(&queues);
    assert_eq!(paths, vec![strings(&["/data/a"]), strings(&["/data/e"]), strings(&["/data/c"])]);
    let queues: Vec<Vec<WorkItem<u8>>> = root_dir_walk(&args(0, true), &mut stats, &entries, &ex);
    assert!(queues.is_empty());
}

#[test]
fn the_root_counts_as_one_directory_checked() {
    let mut stats = no_counts();
    stats.files_checked = 7;
    let _: Vec<Vec<WorkItem<u8>>> = root_dir_walk(&args(2, true), &mut stats, &Vec::new(), &Vec::new());
    assert_eq!(stats.directories_checked, 1);
    assert_eq!(stats.files_checked, 7);
    assert_eq!(stats.directories_purged, 0);
    stats.directories_checked = usize::MAX;
    let _: Vec<Vec<WorkItem<u8>>> = root_dir_walk(&args(2, true), &mut stats, &Vec::new(), &Vec::new());
    assert_eq!(stats.directories_checked, 0);
}

#[test]
fn root_paths_that_are_not_utf8_are_walked() {
    let raw: Vec<u8> = vec![b'/', b'd', 0xff, 0xfe];
    let entries = vec![RootEntry { path: raw.clone(), path_text: "/d\u{fffd}\u{fffd}".to_string(), is_dir: true }];
    let mut stats = no_counts();
    let queues: Vec<Vec<WorkItem<u8>>> = root_dir_walk(&args(1, true), &mut stats, &entries, &Vec::new());
    assert_eq!(queues[0].len(), 1);
    assert_eq!(queues[0][0].path, raw);
}

#[test]
fn depth_protection_counts_levels_below_the_root() {
    // Root `/data` has two components; one protected level covers `/data/x`.
    assert!(is_depth_protected(2, 1, 2));
    assert!(is_depth_protected(2, 1, 3));
    assert!(!is_depth_protected(2, 1, 4));
    assert!(!is_depth_protected(2, 0, 3));
    assert!(is_depth_protected(usize::MAX, usize::MAX, usize::MAX));
}

#[test]
fn root_order_is_kept_or_shuffled() {
    let listed = strings(&["a", "b", "c", "d", "e", "f"]);
    let mut kept = listed.clone();
    order_root_paths(&args(2, true), &mut kept);
    assert_eq!(kept, listed);
    let mut shuffled = listed.clone();
    order_root_paths(&args(2, false), &mut shuffled);
    let mut sorted = shuffled.clone();
    sorted.sort();
    assert_eq!(sorted, listed);
}

#[test]
fn puriel_targets_go_round_robin() {
    let p = PurielCli {
        puriel_target_dir: "t".to_string(),
        pr_log_dir: "l".to_string(),
        age: 23,
        ignore_ctime: true,
        thread_count: 2,
        dry_run: false,
    };
    let targets = strings(&["/a", "/b", "/c", "/d", "/e"]);
    let (n, queues) = populate_worker_queues(&p, &targets);
    assert_eq!(n, 5);
    assert_eq!(queues.len(), 2);
    let drain = |q: &crossbeam::queue::SegQueue<String>| {
        let mut v = Vec::new();
        while let Some(x) = q.pop() {
            v.push(x);
        }
        v
    };
    assert_eq!(drain(&queues[0]), strings(&["/a", "/c", "/e"]));
    assert_eq!(drain(&queues[1]), strings(&["/b", "/d"]));
    let none = PurielCli { thread_count: 0, ..p };
    let (n, queues) = populate_worker_queues(&none, &Vec::new());
    assert_eq!(n, 0);
    assert!(queues.is_empty());
}

#[test]
fn entry_kinds_from_mode_bits() {
    assert_eq!(entry_kind(0o040755), EntryKind::Directory);
    assert_eq!(entry_kind(0o100644), EntryKind::FileLike);
    assert_eq!(entry_kind(0o120777), EntryKind::FileLike);
    assert_eq!(entry_kind(0o140755), EntryKind::FileLike);
    assert_eq!(entry_kind(0o060660), EntryKind::Device);
    assert_eq!(entry_kind(0o020666), EntryKind::Device);
    assert_eq!(entry_kind(0o010644), EntryKind::Device);
    assert_eq!(entry_kind(0o000644), EntryKind::Unknown);
    assert_eq!(entry_kind(0o170000), EntryKind::Unknown);
}

#[test]
fn dot_entries_are_recognised() {
    assert!(is_dot_entry("."));
    assert!(is_dot_entry(".."));
    assert!(!is_dot_entry("..."));
    assert!(!is_dot_entry(".hidden"));
    assert!(!is_dot_entry(""));
}

#[test]
fn entry_plans() {
    assert_eq!(plan_entry(Some(EntryKind::Directory), false, false, 5, 4), EntryPlan::QueueDirectory { queue: 1 });
    assert_eq!(plan_entry(Some(EntryKind::Directory), false, false, 8, 4), EntryPlan::QueueDirectory { queue: 0 });
    assert_eq!(plan_entry(Some(EntryKind::Directory), true, false, 5, 4), EntryPlan::PruneDirectory);
    assert_eq!(plan_entry(Some(EntryKind::Directory), true, false, 5, 0), EntryPlan::PruneDirectory);
    assert_eq!(plan_entry(Some(EntryKind::FileLike), false, false, 5, 4), EntryPlan::ProcessFile);
    assert_eq!(plan_entry(Some(EntryKind::Device), false, false, 5, 4), EntryPlan::MarkNotPurgable);
    assert_eq!(plan_entry(Some(EntryKind::Unknown), false, false, 5, 4), EntryPlan::MarkNotPurgable);
    assert_eq!(plan_entry(None, false, false, 5, 4), EntryPlan::MarkNotPurgable);
    assert!(directory_still_purgable(true, EntryPlan::ProcessFile, true));
    assert!(!directory_still_purgable(true, EntryPlan::ProcessFile, false));
    assert!(!directory_still_purgable(true, EntryPlan::MarkNotPurgable, true));
    assert!(directory_still_purgable(true, EntryPlan::PruneDirectory, false));
    assert!(!directory_still_purgable(false, EntryPlan::QueueDirectory { queue: 0 }, true));
}

fn tree_args(depth: u32, b: u32, files: u32, data: u32, unbalanced: bool) -> TreeCli {
    TreeCli {
        root: "tree".to_string(),
        depth,
        branching_factor: b,
        file_count: files,
        verbose: false,
        interactive: false,
        force: true,
        purgable: true,
        data_size: data,
        unbalanced,
    }
}

#[test]
fn tree_sizes() {
    let (s, data) = tree_statistics(&tree_args(4, 4, 4, 0, false));
    assert_eq!(s.num_dirs, 341);
    assert_eq!(s.num_files, 1360);
    assert_eq!(data, 0);
    let (s, data) = tree_statistics(&tree_args(2, 2, 2, 10, false));
    assert_eq!(s.num_dirs, 7);
    assert_eq!(s.num_files, 12);
    assert_eq!(data, 120);
    let (s, _) = tree_statistics(&tree_args(0, 9, 3, 0, false));
    assert_eq!((s.num_dirs, s.num_files), (1, 0));
    let (s, _) = tree_statistics(&tree_args(3, 0, 3, 0, false));
    assert_eq!((s.num_dirs, s.num_files), (1, 0));
}

#[test]
fn tree_timestamp_pattern() {
    assert!(subdir_purgable(None, 0));
    assert!(!subdir_purgable(None, 1));
    assert!(subdir_purgable(Some(true), 3));
    assert!(!subdir_purgable(Some(false), 2));
    assert_eq!(file_timestamp_state(true, None, 0, 1, false), EntryPurgeState::PurgeNow);
    assert_eq!(file_timestamp_state(true, None, 0, 2, true), EntryPurgeState::PurgeLater);
    assert_eq!(file_timestamp_state(true, None, 1, 2, true), EntryPurgeState::PurgeNow);
    assert_eq!(file_timestamp_state(true, None, 1, 3, true), EntryPurgeState::NotPurgable);
    assert_eq!(file_timestamp_state(true, Some(true), 1, 0, true), EntryPurgeState::PurgeLater);
    assert_eq!(file_timestamp_state(true, Some(false), 0, 1, false), EntryPurgeState::NotPurgable);
    assert_eq!(dir_timestamp_state(true, None, 2), EntryPurgeState::PurgeNow);
    assert_eq!(dir_timestamp_state(true, Some(false), 2), EntryPurgeState::NotPurgable);
    // Without --purgable nothing is backdated.
    assert_eq!(file_timestamp_state(false, None, 0, 1, false), EntryPurgeState::NotPurgable);
    assert_eq!(file_timestamp_state(false, Some(true), 0, 0, true), EntryPurgeState::NotPurgable);
    assert_eq!(dir_timestamp_state(false, None, 0), EntryPurgeState::NotPurgable);
    assert_eq!(dir_timestamp_state(false, Some(true), 1), EntryPurgeState::NotPurgable);
    let now = 1_700_000_000i64;
    assert_eq!(backdated_time(now, EntryPurgeState::PurgeNow), Some(now - 31 * DAY_IN_SECS));
    assert_eq!(backdated_time(now, EntryPurgeState::PurgeLater), Some(now - 24 * DAY_IN_SECS));
    assert_eq!(backdated_time(now, EntryPurgeState::NotPurgable), None);
}

#[test]
fn target_files_read_back_what_was_written() {
    let paths = strings(&["/data/a.txt", "/data/dir with space/b", "", "/é/ü"]);
    let text: String = paths.iter().map(|p| target_line(p)).collect();
    assert_eq!(target_line("/x"), "/x\n");
    assert_eq!(split_target_lines(&text), paths);
    assert_eq!(split_target_lines("a\nb\r\nc"), strings(&["a", "b", "c"]));
    assert_eq!(split_target_lines(""), Vec::<String>::new());
    assert_eq!(split_target_lines("\n"), strings(&[""]));
    assert_eq!(split_target_lines("a\n\n"), strings(&["a", ""]));
    assert_eq!(split_target_lines("a\r"), strings(&["a\r"]));
    let expected: Vec<String> = std::io::BufRead::lines("x\r\ny\nz\r".as_bytes()).map(|l| l.unwrap()).collect();
    assert_eq!(split_target_lines("x\r\ny\nz\r"), expected);
}

#[test]
fn a_mark_keeps_the_directory_and_everything_above_it() {
    let mut marks = KeepMarks::new();
    let top = marks.add(None);
    let child = marks.add(Some(top));
    let grandchild = marks.add(Some(child));
    let sibling = marks.add(Some(top));
    let other_tree = marks.add(None);
    assert_eq!((top, child, grandchild, sibling, other_tree), (0, 1, 2, 3, 4));
    assert_eq!(marks.len(), 5);
    for id in 0..5 {
        assert!(!marks.is_kept(id));
    }
    marks.mark(grandchild);
    assert!(marks.is_kept(grandchild));
    assert!(marks.is_kept(child));
    assert!(marks.is_kept(top));
    // Directories beside or outside the marked branch are still removed.
    assert!(!marks.is_kept(sibling));
    assert!(!marks.is_kept(other_tree));
    // Marking again, or marking a kept directory, changes nothing more.
    marks.mark(child);
    assert!(!marks.is_kept(sibling));
    marks.mark(sibling);
    assert!(marks.is_kept(sibling));
    assert!(!marks.is_kept(other_tree));
}

#[test]
fn directories_owned_by_root_are_pruned_like_exceptions() {
    assert_eq!(plan_entry(Some(EntryKind::Directory), false, true, 5, 4), EntryPlan::PruneDirectory);
    assert_eq!(plan_entry(Some(EntryKind::Directory), true, true, 5, 4), EntryPlan::PruneDirectory);
    // No workers are needed to prune.
    assert_eq!(plan_entry(Some(EntryKind::Directory), false, true, 5, 0), EntryPlan::PruneDirectory);
    // Owner root does not change what happens to files or other entries.
    assert_eq!(plan_entry(Some(EntryKind::FileLike), false, true, 5, 4), EntryPlan::ProcessFile);
    assert_eq!(plan_entry(Some(EntryKind::Device), false, true, 5, 4), EntryPlan::MarkNotPurgable);
    assert!(plan_marks_candidate(EntryPlan::PruneDirectory));
    assert!(!plan_marks_candidate(EntryPlan::QueueDirectory { queue: 1 }));
    assert!(!plan_marks_candidate(EntryPlan::ProcessFile));
    assert!(!plan_marks_candidate(EntryPlan::MarkNotPurgable));
}

#[test]
fn a_scan_starts_and_ends_by_the_directory_verdict() {
    let start = begin_scan(EntryPurgeState::PurgeNow);
    assert!(start.candidate && !start.mark_parent);
    let start = begin_scan(EntryPurgeState::NotPurgable);
    assert!(!start.candidate && start.mark_parent);
    assert!(scan_end_marks_candidate(false));
    assert!(!scan_end_marks_candidate(true));
    assert_eq!(entry_position(0, 0), 1);
    assert_eq!(entry_position(3, 4), 8);
    assert_eq!(entry_position(usize::MAX - 1, 0), usize::MAX);
}
