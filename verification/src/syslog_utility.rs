//! The messages that Rafael and Puriel send to syslog when they start and
//! when they finish: lists of `key=value ` fields.

use vstd::prelude::*;
use crate::text::{decimal, signed_decimal, bool_chars, fields_text, fields_view, render_fields, decimal_string, signed_decimal_string, bool_str};
use crate::purger::{Cli, PurgeResults, ElapsedTime};
use crate::puriel_utils::{Cli as PurielCli, PurielResults};

verus! {

/// Throughput figures of a run, already rendered with two decimals.
pub struct ThroughputRates {
    pub files_checked_per_second: String,
    pub files_purged_per_second: String,
    pub directories_checked_per_second: String,
    pub directories_purged_per_second: String,
}

/// The execution-time field: milliseconds below 10 000 seconds, else seconds.
pub open spec fn execution_time_field(time: ElapsedTime) -> (Seq<char>, Seq<char>) {
    if time.secs < 10_000 {
        ("Execution_Time(ms)"@, decimal(time.millis()))
    } else {
        ("Execution_Time(S)"@, decimal(time.secs as nat))
    }
}

pub open spec fn start_fields(root: Seq<char>, age: Seq<char>, dry_run: Seq<char>) -> Seq<
    (Seq<char>, Seq<char>),
> {
    seq![("Status"@, "Started"@), ("Target"@, root), ("Age"@, age), ("Dry_Run"@, dry_run)]
}

pub open spec fn finished_fields(
    results: PurgeResults,
    age: i64,
    dry_run: bool,
    rates: ThroughputRates,
) -> Seq<(Seq<char>, Seq<char>)> {
    let stats = results.purge_statistics;
    seq![
        ("Status"@, "Finished"@),
        execution_time_field(results.time),
        ("Age"@, signed_decimal(age as int)),
        ("Dry_Run"@, bool_chars(dry_run)),
        ("Files_Checked"@, decimal(stats.files_checked as nat)),
        ("Files_Purged"@, decimal(stats.files_purged as nat)),
        ("Files_Checked_Per_Second"@, rates.files_checked_per_second@),
        ("Files_Purged_Per_Second"@, rates.files_purged_per_second@),
        ("Directories_Checked"@, decimal(stats.directories_checked as nat)),
        ("Directories_Purged"@, decimal(results.directories_purged_statistics.0 as nat)),
        ("Directories_Checked_Per_Second"@, rates.directories_checked_per_second@),
        ("Directories_Purged_Per_Second"@, rates.directories_purged_per_second@),
    ]
}

pub open spec fn puriel_start_fields(age: Seq<char>, dry_run: Seq<char>) -> Seq<
    (Seq<char>, Seq<char>),
> {
    seq![("Status"@, "Started"@), ("Age"@, age), ("Dry_Run"@, dry_run)]
}

pub open spec fn puriel_finished_fields(results: PurielResults, age: i64, dry_run: bool) -> Seq<
    (Seq<char>, Seq<char>),
> {
    seq![
        ("Status"@, "Finished"@),
        execution_time_field(results.time),
        ("Age"@, signed_decimal(age as int)),
        ("Dry_Run"@, bool_chars(dry_run)),
        ("Targets_Found"@, decimal(results.stats.targets_found as nat)),
        ("Targets_Purged"@, decimal(results.stats.targets_purged as nat)),
    ]
}

fn push_field(fields: &mut Vec<(String, String)>, key: &str, value: String)
    ensures
        fields_view(final(fields)@) == fields_view(old(fields)@).push((key@, value@)),
{
    let ghost before = fields@;
    fields.push((String::from_str(key), value));
    assert(fields_view(fields@) =~= fields_view(before).push((key@, value@)));
}

fn literal(s: &str) -> (owned: String)
    ensures
        owned@ == s@,
{
    String::from_str(s)
}

fn execution_time_entry(time: &ElapsedTime) -> (field: (String, String))
    ensures
        (field.0@, field.1@) == execution_time_field(*time),
{
    if time.secs < 10_000 {
        (literal("Execution_Time(ms)"), decimal_string(time.as_millis()))
    } else {
        (literal("Execution_Time(S)"), decimal_string(time.secs as u128))
    }
}

/// The start message of Rafael: status, target, age and dry-run flag.
pub fn generate_start_log(root: String, age: String, dry_run: String) -> (message: String)
    ensures
        message@ == fields_text(start_fields(root@, age@, dry_run@)),
{
    let mut fields: Vec<(String, String)> = Vec::new();
    push_field(&mut fields, "Status", literal("Started"));
    push_field(&mut fields, "Target", root);
    push_field(&mut fields, "Age", age);
    push_field(&mut fields, "Dry_Run", dry_run);
    let message = render_fields(&fields);
    assert(fields_view(fields@) =~= start_fields(root@, age@, dry_run@));
    message
}

/// The finish message of Rafael: status, execution time, settings, counters
/// and throughput.
pub fn generate_finished_log(
    results: &PurgeResults,
    age: i64,
    dry_run: bool,
    rates: &ThroughputRates,
) -> (message: String)
    ensures
        message@ == fields_text(finished_fields(*results, age, dry_run, *rates)),
{
    let stats = &results.purge_statistics;
    let mut fields: Vec<(String, String)> = Vec::new();
    push_field(&mut fields, "Status", literal("Finished"));
    let ghost before = fields@;
    fields.push(execution_time_entry(&results.time));
    assert(fields_view(fields@) =~= fields_view(before).push(execution_time_field(results.time)));
    push_field(&mut fields, "Age", signed_decimal_string(age));
    push_field(&mut fields, "Dry_Run", literal(bool_str(dry_run)));
    push_field(&mut fields, "Files_Checked", decimal_string(stats.files_checked as u128));
    push_field(&mut fields, "Files_Purged", decimal_string(stats.files_purged as u128));
    push_field(&mut fields, "Files_Checked_Per_Second", rates.files_checked_per_second.clone());
    push_field(&mut fields, "Files_Purged_Per_Second", rates.files_purged_per_second.clone());
    push_field(&mut fields, "Directories_Checked", decimal_string(stats.directories_checked as u128));
    push_field(
        &mut fields,
        "Directories_Purged",
        decimal_string(results.directories_purged_statistics.0 as u128),
    );
    push_field(
        &mut fields,
        "Directories_Checked_Per_Second",
        rates.directories_checked_per_second.clone(),
    );
    push_field(
        &mut fields,
        "Directories_Purged_Per_Second",
        rates.directories_purged_per_second.clone(),
    );
    let message = render_fields(&fields);
    assert(fields_view(fields@) =~= finished_fields(*results, age, dry_run, *rates));
    message
}

/// The start message of Puriel: status, age and dry-run flag.
pub fn generate_puriel_start_log(age: String, dry_run: String) -> (message: String)
    ensures
        message@ == fields_text(puriel_start_fields(age@, dry_run@)),
{
    let mut fields: Vec<(String, String)> = Vec::new();
    push_field(&mut fields, "Status", literal("Started"));
    push_field(&mut fields, "Age", age);
    push_field(&mut fields, "Dry_Run", dry_run);
    let message = render_fields(&fields);
    assert(fields_view(fields@) =~= puriel_start_fields(age@, dry_run@));
    message
}

/// The finish message of Puriel: status, execution time, settings and counters.
pub fn generate_puriel_finished_log(results: &PurielResults, age: i64, dry_run: bool) -> (message:
    String)
    ensures
        message@ == fields_text(puriel_finished_fields(*results, age, dry_run)),
{
    let mut fields: Vec<(String, String)> = Vec::new();
    push_field(&mut fields, "Status", literal("Finished"));
    let ghost before = fields@;
    fields.push(execution_time_entry(&results.time));
    assert(fields_view(fields@) =~= fields_view(before).push(execution_time_field(results.time)));
    push_field(&mut fields, "Age", signed_decimal_string(age));
    push_field(&mut fields, "Dry_Run", literal(bool_str(dry_run)));
    push_field(&mut fields, "Targets_Found", decimal_string(results.stats.targets_found as u128));
    push_field(&mut fields, "Targets_Purged", decimal_string(results.stats.targets_purged as u128));
    let message = render_fields(&fields);
    assert(fields_view(fields@) =~= puriel_finished_fields(*results, age, dry_run));
    message
}

/// The message Rafael sends to syslog: the start message when `start`, else
/// the finish message of the given results.
pub fn rafael_syslog_message(
    results: Option<(&PurgeResults, &ThroughputRates)>,
    args: &Cli,
    start: bool,
) -> (message: String)
    requires
        start || results is Some,
    ensures
        start ==> message@ == fields_text(
            start_fields(args.root@, signed_decimal(args.age as int), bool_chars(args.dry_run)),
        ),
        !start ==> message@ == fields_text(
            finished_fields(*results.unwrap().0, args.age, args.dry_run, *results.unwrap().1),
        ),
{
    if start {
        generate_start_log(
            args.root.clone(),
            signed_decimal_string(args.age),
            literal(bool_str(args.dry_run)),
        )
    } else {
        match results {
            Some((r, rates)) => generate_finished_log(r, args.age, args.dry_run, rates),
            None => String::new(),
        }
    }
}

/// The message Puriel sends to syslog: the start message when `start`, else
/// the finish message of the given results.
pub fn puriel_syslog_message(results: Option<&PurielResults>, args: &PurielCli, start: bool) -> (message:
    String)
    requires
        start || results is Some,
    ensures
        start ==> message@ == fields_text(
            puriel_start_fields(signed_decimal(args.age as int), bool_chars(args.dry_run)),
        ),
        !start ==> message@ == fields_text(puriel_finished_fields(*results->0, args.age, args.dry_run)),
{
    if start {
        generate_puriel_start_log(signed_decimal_string(args.age), literal(bool_str(args.dry_run)))
    } else {
        match results {
            Some(r) => generate_puriel_finished_log(r, args.age, args.dry_run),
            None => String::new(),
        }
    }
}

} // verus!
