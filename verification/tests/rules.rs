use rafael::metadata_utils::{
    file_counts, is_entry_purgable, is_entry_purgable_at, plan_file_action, process_puriel_statx,
    process_puriel_statx_at, three_way_max, EntryMetadata, EntryPurgeState, FileAction,
    DAY_IN_SECS,
};
use rafael::maketree::backdated_time;
use rafael::purger::Cli;
use rafael::puriel_utils::Cli as PurielCli;

const NOW: i64 = 1_700_000_000;

fn rafael_args(age: i64) -> Cli {
    Cli {
        root: "/scratch/fake_data_test".to_string(),
        thread_count: 4,
        rp_log_dir: "rp_log_dir".to_string(),
        age,
        exception: "exceptions.txt".to_string(),
        ignore_ctime: true,
        depth_protection: 1,
        dry_run: false,
        verbosity: 0,
        show_progress: false,
        read_entire_dir: false,
        entry_count: 0,
        thread_stats: false,
        erase: false,
        no_shuffle_root: false,
        enable_puriel: false,
        puriel_days: -1,
        pr_target_dir: "pr_targets".to_string(),
    }
}

fn puriel_args(age: i64) -> PurielCli {
    PurielCli {
        puriel_target_dir: "targets".to_string(),
        pr_log_dir: "pr_log_dir".to_string(),
        age,
        ignore_ctime: true,
        thread_count: 2,
        dry_run: false,
    }
}

fn file_days_old(days: i64, uid: u32) -> EntryMetadata {
    let t = NOW - DAY_IN_SECS * days;
    EntryMetadata { uid, atime: t, ctime: NOW, mtime: t, mode: 0o100644 }
}

#[test]
fn three_way_max_picks_the_newest() {
    assert_eq!(three_way_max(1, 2, 3), 3);
    assert_eq!(three_way_max(9, 2, 3), 9);
    assert_eq!(three_way_max(-5, 7, -1), 7);
    assert_eq!(three_way_max(i64::MIN, i64::MIN, i64::MIN), i64::MIN);
}

#[test]
fn old_files_are_purged_and_young_ones_kept() {
    let args = rafael_args(5);
    assert_eq!(is_entry_purgable_at(&args, &file_days_old(31, 1000), 5, false, NOW), EntryPurgeState::PurgeNow);
    assert_eq!(is_entry_purgable_at(&args, &file_days_old(4, 1000), 5, false, NOW), EntryPurgeState::NotPurgable);
    // Exactly `age` days old is not older than the threshold.
    assert_eq!(is_entry_purgable_at(&args, &file_days_old(5, 1000), 5, false, NOW), EntryPurgeState::NotPurgable);
}

#[test]
fn ctime_counts_unless_ignored() {
    let mut args = rafael_args(5);
    args.ignore_ctime = false;
    // ctime is now, so the file is young.
    assert_eq!(is_entry_purgable_at(&args, &file_days_old(31, 1000), 5, false, NOW), EntryPurgeState::NotPurgable);
}

#[test]
fn root_owned_files_are_kept_unless_erasing() {
    let mut args = rafael_args(5);
    assert_eq!(is_entry_purgable_at(&args, &file_days_old(31, 0), 5, false, NOW), EntryPurgeState::NotPurgable);
    args.erase = true;
    args.age = -1;
    assert_eq!(is_entry_purgable_at(&args, &file_days_old(0, 0), 5, false, NOW), EntryPurgeState::PurgeNow);
}

#[test]
fn protected_directories_are_kept_even_when_erasing() {
    let mut args = rafael_args(5);
    args.erase = true;
    // "/scratch/fake_data_test" has 3 components; with depth protection 1 a
    // directory of 4 components is protected and one of 5 is not.
    assert_eq!(is_entry_purgable_at(&args, &file_days_old(31, 1000), 4, true, NOW), EntryPurgeState::NotPurgable);
    assert_eq!(is_entry_purgable_at(&args, &file_days_old(31, 1000), 5, true, NOW), EntryPurgeState::PurgeNow);
    // Files are not subject to depth protection.
    assert_eq!(is_entry_purgable_at(&args, &file_days_old(31, 1000), 4, false, NOW), EntryPurgeState::PurgeNow);
}

#[test]
fn puriel_records_files_that_will_be_due() {
    let mut args = rafael_args(30);
    args.enable_puriel = true;
    args.puriel_days = 7;
    assert_eq!(is_entry_purgable_at(&args, &file_days_old(31, 1000), 5, false, NOW), EntryPurgeState::PurgeNow);
    assert_eq!(is_entry_purgable_at(&args, &file_days_old(24, 1000), 5, false, NOW), EntryPurgeState::PurgeLater);
    assert_eq!(is_entry_purgable_at(&args, &file_days_old(10, 1000), 5, false, NOW), EntryPurgeState::NotPurgable);
    // Directories are never deferred.
    assert_eq!(is_entry_purgable_at(&args, &file_days_old(24, 1000), 5, true, NOW), EntryPurgeState::NotPurgable);
}

#[test]
fn puriel_purges_recorded_targets_when_due() {
    // Rafael (age 30, 7 days ahead) recorded a 24-day-old file; Puriel run
    // right away with age 23 purges it.
    let p = puriel_args(23);
    assert_eq!(process_puriel_statx_at(&file_days_old(24, 1000), &p, NOW), EntryPurgeState::PurgeNow);
    assert_eq!(process_puriel_statx_at(&file_days_old(22, 1000), &p, NOW), EntryPurgeState::NotPurgable);
    assert_eq!(process_puriel_statx_at(&file_days_old(24, 0), &p, NOW), EntryPurgeState::NotPurgable);
}

#[test]
fn clock_based_verdicts_on_clear_cases() {
    let args = rafael_args(5);
    // A file from 1970 is old whatever today's date.
    let ancient = EntryMetadata { uid: 1000, atime: 0, ctime: 0, mtime: 0, mode: 0o100644 };
    assert_eq!(is_entry_purgable(&args, &ancient, 5, false), EntryPurgeState::PurgeNow);
    let future = EntryMetadata { uid: 1000, atime: i64::MAX / 2, ctime: 0, mtime: 0, mode: 0o100644 };
    assert_eq!(is_entry_purgable(&args, &future, 5, false), EntryPurgeState::NotPurgable);
    assert_eq!(process_puriel_statx(&ancient, &puriel_args(23)), EntryPurgeState::PurgeNow);
    assert_eq!(process_puriel_statx(&future, &puriel_args(23)), EntryPurgeState::NotPurgable);
}

#[test]
fn file_actions_follow_verdict_and_dry_run() {
    assert_eq!(plan_file_action(EntryPurgeState::PurgeNow, false), FileAction::Delete);
    assert_eq!(plan_file_action(EntryPurgeState::PurgeNow, true), FileAction::ReportWouldDelete);
    assert_eq!(plan_file_action(EntryPurgeState::PurgeLater, false), FileAction::RecordPurielTarget);
    assert_eq!(plan_file_action(EntryPurgeState::PurgeLater, true), FileAction::RecordPurielTarget);
    assert_eq!(plan_file_action(EntryPurgeState::NotPurgable, true), FileAction::Keep);
}

#[test]
fn backdated_tree_files_meet_the_rules() {
    let mut args = rafael_args(30);
    args.enable_puriel = true;
    args.puriel_days = 7;
    let now_time = backdated_time(NOW, EntryPurgeState::PurgeNow).unwrap();
    let later_time = backdated_time(NOW, EntryPurgeState::PurgeLater).unwrap();
    let now_file = EntryMetadata { uid: 1000, atime: now_time, ctime: NOW, mtime: now_time, mode: 0o100644 };
    let later_file = EntryMetadata { uid: 1000, atime: later_time, ctime: NOW, mtime: later_time, mode: 0o100644 };
    assert_eq!(is_entry_purgable_at(&args, &now_file, 5, false, NOW), EntryPurgeState::PurgeNow);
    assert_eq!(is_entry_purgable_at(&args, &later_file, 5, false, NOW), EntryPurgeState::PurgeLater);
    assert_eq!(is_entry_purgable_at(&args, &later_file, 5, false, NOW + 6 * DAY_IN_SECS), EntryPurgeState::PurgeLater);
    // A week later the deferred file is due, for Rafael and for Puriel alike.
    assert_eq!(is_entry_purgable_at(&args, &later_file, 5, false, NOW + 7 * DAY_IN_SECS), EntryPurgeState::PurgeNow);
    assert_eq!(process_puriel_statx_at(&later_file, &puriel_args(30), NOW + 7 * DAY_IN_SECS), EntryPurgeState::PurgeNow);
}

#[test]
fn enabling_puriel_changes_no_immediate_verdict() {
    let plain = rafael_args(30);
    let mut deferring = rafael_args(30);
    deferring.enable_puriel = true;
    deferring.puriel_days = 7;
    for days in [0, 10, 23, 24, 29, 30, 31, 100] {
        let m = file_days_old(days, 1000);
        let a = is_entry_purgable_at(&plain, &m, 5, false, NOW);
        let b = is_entry_purgable_at(&deferring, &m, 5, false, NOW);
        assert_eq!(a == EntryPurgeState::PurgeNow, b == EntryPurgeState::PurgeNow);
        assert_ne!(a, EntryPurgeState::PurgeLater);
    }
}

#[test]
fn depth_protection_counts_the_root_path_components() {
    // (root, number of components of the root path)
    let roots = [
        ("/data", 2),
        ("/data/", 2),
        ("//data//x/", 3),
        ("./a", 2),
        (".", 1),
        ("a/./b", 2),
        ("a/../b", 3),
        (".a/b", 2),
        ("/./a", 2),
        ("/", 1),
        ("", 0),
        ("/dätä/ü", 3),
    ];
    let dir = file_days_old(100, 1000);
    for (root, count) in roots {
        let mut args = rafael_args(-1);
        args.erase = true;
        args.depth_protection = 0;
        args.root = root.to_string();
        assert_eq!(
            is_entry_purgable_at(&args, &dir, count, true, NOW),
            EntryPurgeState::NotPurgable,
            "root {:?}",
            root
        );
        assert_eq!(
            is_entry_purgable_at(&args, &dir, count + 1, true, NOW),
            EntryPurgeState::PurgeNow,
            "root {:?}",
            root
        );
    }
}

#[test]
fn file_counts_follow_the_action() {
    let c = file_counts(FileAction::Delete, true);
    assert_eq!((c.checked, c.purged, c.recorded), (1, 1, 0));
    let c = file_counts(FileAction::Delete, false);
    assert_eq!((c.checked, c.purged, c.recorded), (1, 0, 0));
    let c = file_counts(FileAction::ReportWouldDelete, false);
    assert_eq!((c.checked, c.purged, c.recorded), (1, 1, 0));
    let c = file_counts(FileAction::RecordPurielTarget, false);
    assert_eq!((c.checked, c.purged, c.recorded), (1, 0, 1));
    let c = file_counts(FileAction::Keep, true);
    assert_eq!((c.checked, c.purged, c.recorded), (1, 0, 0));
}

#[test]
fn a_larger_age_never_strengthens_a_verdict() {
    let mut young = rafael_args(5);
    young.enable_puriel = true;
    young.puriel_days = 7;
    let mut old = rafael_args(40);
    old.enable_puriel = true;
    old.puriel_days = 7;
    let m = file_days_old(31, 1000);
    assert_eq!(is_entry_purgable_at(&young, &m, 5, false, NOW), EntryPurgeState::PurgeNow);
    assert_eq!(is_entry_purgable_at(&old, &m, 5, false, NOW), EntryPurgeState::NotPurgable);
    let m = file_days_old(35, 1000);
    assert_eq!(is_entry_purgable_at(&old, &m, 5, false, NOW), EntryPurgeState::PurgeLater);
}
