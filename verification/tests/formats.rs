use rafael::purger::{format_log_entry, log_entry_now, Cli, ElapsedTime, PurgeResults, PurgeStatistics};
use rafael::puriel_utils::{Cli as PurielCli, PurielResults, PurielStatistics};
use rafael::syslog_utility::{
    generate_finished_log, generate_puriel_finished_log, generate_puriel_start_log,
    generate_start_log, puriel_syslog_message, rafael_syslog_message, ThroughputRates,
};
use rafael::text::{bool_str, decimal_string, render_fields, signed_decimal_string};

fn results(secs: u64, nanos: u32) -> PurgeResults {
    PurgeResults {
        purge_statistics: PurgeStatistics {
            files_checked: 1360,
            files_purged: 1020,
            directories_checked: 341,
            directories_purged: 0,
            puriel_items: None,
        },
        directories_purged_statistics: (168, 4096),
        time: ElapsedTime { secs, subsec_nanos: nanos },
    }
}

fn rates() -> ThroughputRates {
    ThroughputRates {
        files_checked_per_second: "906.67".to_string(),
        files_purged_per_second: "680.00".to_string(),
        directories_checked_per_second: "227.33".to_string(),
        directories_purged_per_second: "112.00".to_string(),
    }
}

fn args() -> Cli {
    Cli {
        root: "/data/tree".to_string(),
        thread_count: 4,
        rp_log_dir: "rp_log_dir".to_string(),
        age: 30,
        exception: "exceptions.txt".to_string(),
        ignore_ctime: false,
        depth_protection: 1,
        dry_run: true,
        verbosity: 0,
        show_progress: false,
        read_entire_dir: false,
        entry_count: 0,
        thread_stats: false,
        erase: false,
        no_shuffle_root: true,
        enable_puriel: false,
        puriel_days: -1,
        pr_target_dir: "pr_targets".to_string(),
    }
}

#[test]
fn decimal_numbers_match_to_string() {
    assert_eq!(decimal_string(0), "0");
    assert_eq!(decimal_string(7), "7");
    assert_eq!(decimal_string(1360), "1360");
    assert_eq!(decimal_string(u128::MAX), u128::MAX.to_string());
    assert_eq!(signed_decimal_string(-42), "-42");
    assert_eq!(signed_decimal_string(i64::MIN), i64::MIN.to_string());
    assert_eq!(signed_decimal_string(i64::MAX), i64::MAX.to_string());
    assert_eq!(bool_str(true), "true");
    assert_eq!(bool_str(false), "false");
}

#[test]
fn fields_render_with_trailing_spaces() {
    let fields = vec![
        ("A".to_string(), "1".to_string()),
        ("Key".to_string(), "".to_string()),
    ];
    assert_eq!(render_fields(&fields), "A=1 Key= ");
    assert_eq!(render_fields(&Vec::new()), "");
}

#[test]
fn start_log_lists_target_age_and_dry_run() {
    let m = generate_start_log("/data/tree".to_string(), "30".to_string(), "true".to_string());
    assert_eq!(m, "Status=Started Target=/data/tree Age=30 Dry_Run=true ");
    assert_eq!(rafael_syslog_message(None, &args(), true), m);
}

#[test]
fn finished_log_uses_milliseconds_for_short_runs() {
    let m = generate_finished_log(&results(1, 500_000_000), 30, true, &rates());
    assert_eq!(
        m,
        "Status=Finished Execution_Time(ms)=1500 Age=30 Dry_Run=true Files_Checked=1360 \
         Files_Purged=1020 Files_Checked_Per_Second=906.67 Files_Purged_Per_Second=680.00 \
         Directories_Checked=341 Directories_Purged=168 Directories_Checked_Per_Second=227.33 \
         Directories_Purged_Per_Second=112.00 "
    );
    let r = results(1, 500_000_000);
    let rt = rates();
    assert_eq!(rafael_syslog_message(Some((&r, &rt)), &args(), false), m);
}

#[test]
fn finished_log_uses_seconds_for_long_runs() {
    let m = generate_finished_log(&results(10_000, 999_000_000), -1, false, &rates());
    assert!(m.starts_with("Status=Finished Execution_Time(S)=10000 Age=-1 Dry_Run=false "));
    let m = generate_finished_log(&results(9_999, 999_999_999), 5, false, &rates());
    assert!(m.starts_with("Status=Finished Execution_Time(ms)=9999999 Age=5 "));
}

#[test]
fn puriel_logs() {
    assert_eq!(
        generate_puriel_start_log("23".to_string(), "false".to_string()),
        "Status=Started Age=23 Dry_Run=false "
    );
    let r = PurielResults {
        stats: PurielStatistics { targets_found: 340, targets_purged: 340, target_statx_errors: 0 },
        time: ElapsedTime { secs: 0, subsec_nanos: 42_900_000 },
    };
    let m = generate_puriel_finished_log(&r, 23, false);
    assert_eq!(
        m,
        "Status=Finished Execution_Time(ms)=42 Age=23 Dry_Run=false Targets_Found=340 Targets_Purged=340 "
    );
    let p = PurielCli {
        puriel_target_dir: "t".to_string(),
        pr_log_dir: "l".to_string(),
        age: 23,
        ignore_ctime: true,
        thread_count: 2,
        dry_run: false,
    };
    assert_eq!(puriel_syslog_message(Some(&r), &p, false), m);
    assert_eq!(puriel_syslog_message(None, &p, true), "Status=Started Age=23 Dry_Run=false ");
}

#[test]
fn log_entries_name_the_path_and_timestamps() {
    assert_eq!(
        format_log_entry(1700000000, false, "/data/a.txt", 1, -2, 3, 1000),
        "1700000000: DELETING /data/a.txt: atime=1 ctime=-2 mtime=3 UID=1000"
    );
    assert_eq!(
        format_log_entry(5, true, "b", 0, 0, 0, 0),
        "5: WOULD DELETE b: atime=0 ctime=0 mtime=0 UID=0"
    );
    let line = log_entry_now(true, "/x", 1, 2, 3, 4);
    assert!(line.ends_with(": WOULD DELETE /x: atime=1 ctime=2 mtime=3 UID=4"));
}

#[test]
fn elapsed_time_in_milliseconds() {
    assert_eq!(ElapsedTime { secs: 2, subsec_nanos: 999_999 }.as_millis(), 2000);
    assert_eq!(ElapsedTime { secs: u64::MAX, subsec_nanos: 999_999_999 }.as_millis(), u64::MAX as u128 * 1000 + 999);
}

#[test]
fn puriel_item_counter() {
    let mut s = results(0, 0).purge_statistics;
    s.puriel_items = Some(340);
    assert_eq!(s.get_puriel_items(), 340);
}
