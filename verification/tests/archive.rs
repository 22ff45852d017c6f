//! Planning, running and reporting archives.
use std::str::FromStr;

use superbank::solparq::archive::{
    after_bounds, after_cleanup, after_confirmation, after_created, after_deleted, after_latest,
    after_validation, align_up, can_plan_next, confirms, log_level, parse_archive_name, plan_next_archive,
    report_path_for_local_archive, should_delete_archived_data_range, single_run_kind,
    validation_warning, ArchiveKind, ArchivePlan, ArchiveReply, ArchiveRunReport, ArchiveStep,
    ClickHouseBounds, Config, ValidationReport,
};

fn config(kinds: Vec<ArchiveKind>) -> Config {
    Config {
        archive_kinds: kinds,
        delete_archived_data_range: false,
        continue_from_last_archive: true,
        force_archive: false,
        server_mode: false,
        archive_location: "Local".to_string(),
        output_location: "/archives".to_string(),
        transactions_table: "default.transactions".to_string(),
        blocks_table: "default.blocks".to_string(),
        archives_to_keep: 3,
        archive_check_interval_secs: 60,
    }
}

fn validation(has_warnings: bool) -> ValidationReport {
    ValidationReport {
        missing_blocks: 2,
        missing_block_ranges: "5-6".to_string(),
        not_produced_slot_ranges: "none".to_string(),
        transaction_mismatches: 1,
        transaction_mismatch_ranges: "9-9".to_string(),
        rpc_check_error: Some("timeout".to_string()),
        has_warnings,
    }
}

fn bounds(earliest_slot: u64, latest_slot: u64) -> ClickHouseBounds {
    ClickHouseBounds { earliest_slot, latest_slot }
}

fn plan() -> ArchivePlan {
    ArchivePlan { kind: ArchiveKind::Hourly, epoch: 1, start_slot: 432_000, end_slot: 440_999 }
}

fn skipped_reason(step: ArchiveStep) -> (String, Option<ClickHouseBounds>, bool) {
    match step {
        ArchiveStep::Finished(report) => {
            assert!(!report.archive_created);
            assert_eq!(report.destination, "/archives/hourly");
            assert_eq!(report.timestamp_unix, 7);
            assert_eq!(report.archive_kind, ArchiveKind::Hourly);
            (
                report.archive_skipped_reason.unwrap(),
                report.db_bounds,
                report.validation.is_some(),
            )
        },
        _ => panic!("the run is not over"),
    }
}

#[test]
fn kinds_are_read_in_any_case_and_with_blanks() {
    assert_eq!(ArchiveKind::parse(" Hourly "), Ok(ArchiveKind::Hourly));
    assert_eq!(ArchiveKind::parse("EPOCH"), Ok(ArchiveKind::Epoch));
    assert_eq!(ArchiveKind::parse("custom"), Ok(ArchiveKind::Custom { slots: 1_000 }));
    assert_eq!(ArchiveKind::parse("Custom:250"), Ok(ArchiveKind::Custom { slots: 250 }));
    assert_eq!("custom:+7".parse::<ArchiveKind>(), Ok(ArchiveKind::Custom { slots: 7 }));
    assert_eq!(ArchiveKind::parse("custom:custom:5"), Ok(ArchiveKind::Custom { slots: 5 }));
}

#[test]
fn wrong_kinds_are_refused_with_their_text() {
    assert_eq!(
        ArchiveKind::parse("custom:many"),
        Err("invalid custom archive slot count in 'custom:many'".to_string())
    );
    assert_eq!(
        ArchiveKind::parse("custom:"),
        Err("invalid custom archive slot count in 'custom:'".to_string())
    );
    assert_eq!(
        ArchiveKind::parse("custom:0"),
        Err("custom archive slot count must be greater than zero".to_string())
    );
    assert_eq!(
        ArchiveKind::parse("Daily"),
        Err(
            "unsupported archive range type 'Daily' (valid: hourly, epoch, custom, custom:<slots>)"
                .to_string()
        )
    );
}

#[test]
fn a_written_kind_reads_back() {
    for kind in [ArchiveKind::Hourly, ArchiveKind::Epoch, ArchiveKind::Custom { slots: 42 }] {
        assert_eq!(ArchiveKind::parse(&kind.to_text()), Ok(kind));
        assert_eq!(ArchiveKind::from_str(&kind.to_text()), Ok(kind));
        assert!(kind.slot_count() >= 1);
    }
    assert_eq!(
        ArchiveKind::from_str("custom:0"),
        Err("custom archive slot count must be greater than zero".to_string())
    );
    assert_eq!(ArchiveKind::Custom { slots: 42 }.to_text(), "custom:42");
}

#[test]
fn kinds_have_labels_and_sizes() {
    assert_eq!(ArchiveKind::Hourly.label(), "hourly");
    assert_eq!(ArchiveKind::Epoch.label(), "epoch");
    assert_eq!(ArchiveKind::Custom { slots: 3 }.label(), "custom");
    assert_eq!(ArchiveKind::Hourly.slot_count(), 9_000);
    assert_eq!(ArchiveKind::Epoch.slot_count(), 432_000);
    assert_eq!(ArchiveKind::Custom { slots: 3 }.slot_count(), 3);
}

#[test]
fn epoch_archives_start_at_an_epoch() {
    assert_eq!(align_up(0, 10), 0);
    assert_eq!(align_up(20, 10), 20);
    assert_eq!(align_up(21, 10), 30);
    assert_eq!(ArchiveKind::Epoch.first_start_slot(432_001), 864_000);
    assert_eq!(ArchiveKind::Epoch.first_start_slot(432_000), 432_000);
    assert_eq!(ArchiveKind::Hourly.first_start_slot(432_001), 432_001);
    assert_eq!(ArchiveKind::Custom { slots: 5 }.first_start_slot(17), 17);
}

#[test]
fn available_slots_saturate() {
    assert_eq!(bounds(10, 19).slots_available(), 10);
    assert_eq!(bounds(19, 10).slots_available(), 1);
    assert_eq!(bounds(0, u64::MAX).slots_available(), u64::MAX);
}

#[test]
fn an_archive_name_reads_back() {
    let name = plan().file_name();
    assert_eq!(name, "hourly_1_432000-440999.parquet");
    let parsed = parse_archive_name(&name).unwrap();
    assert_eq!(parsed.kind_label, "hourly");
    assert_eq!(parsed.epoch, 1);
    assert_eq!(parsed.start_slot, 432_000);
    assert_eq!(parsed.end_slot, 440_999);
}

#[test]
fn other_names_are_no_archive_names() {
    for name in [
        "hourly_1_1-2",
        "hourly_1.parquet",
        "hourly_x_1-2.parquet",
        "hourly_1_12.parquet",
        "hourly_1_1-2_3.parquet",
        "hourly_1_a-2.parquet",
        "hourly_1_1-b.parquet",
        "hourly_1_1-2-3.parquet",
        ".parquet",
        "",
    ] {
        assert!(parse_archive_name(name).is_none(), "{name}");
    }
}

#[test]
fn the_first_archive_starts_at_the_earliest_slot() {
    let kind = ArchiveKind::Custom { slots: 10 };
    let planned = plan_next_archive(kind, bounds(100, 109), None, true);
    assert_eq!(
        planned,
        Ok(Some(ArchivePlan { kind, epoch: 0, start_slot: 100, end_slot: 109 }))
    );
    assert_eq!(plan_next_archive(kind, bounds(100, 108), None, true), Ok(None));
    assert_eq!(plan_next_archive(kind, bounds(100, 99), None, true), Ok(None));
}

#[test]
fn archives_continue_where_the_last_one_ended() {
    let kind = ArchiveKind::Custom { slots: 10 };
    let last = Some("custom_0_100-109.parquet");
    assert_eq!(
        plan_next_archive(kind, bounds(90, 200), last, true),
        Ok(Some(ArchivePlan { kind, epoch: 0, start_slot: 110, end_slot: 119 }))
    );
    assert_eq!(
        plan_next_archive(kind, bounds(90, 200), last, false),
        Ok(Some(ArchivePlan { kind, epoch: 0, start_slot: 90, end_slot: 99 }))
    );
    assert_eq!(
        plan_next_archive(kind, bounds(150, 200), last, true),
        Ok(Some(ArchivePlan { kind, epoch: 0, start_slot: 150, end_slot: 159 }))
    );
}

#[test]
fn two_archives_in_a_row_are_contiguous() {
    let kind = ArchiveKind::Epoch;
    let first = plan_next_archive(kind, bounds(1, 2_000_000), None, true).unwrap().unwrap();
    assert_eq!(first.start_slot, 432_000);
    assert_eq!(first.epoch, 1);
    let name = first.file_name();
    let second =
        plan_next_archive(kind, bounds(1, 2_000_000), Some(&name), true).unwrap().unwrap();
    assert_eq!(second.start_slot, first.end_slot + 1);
    assert_eq!(second.epoch, 2);
    assert_eq!(second.end_slot - second.start_slot + 1, 432_000);
}

#[test]
fn a_plan_that_cannot_continue_is_an_error() {
    let kind = ArchiveKind::Hourly;
    assert_eq!(
        plan_next_archive(kind, bounds(0, 10), Some("latest"), true),
        Err("unable to parse last archive name 'latest'".to_string())
    );
    assert_eq!(
        plan_next_archive(kind, bounds(0, 10), Some("epoch_0_0-1.parquet"), true),
        Err(
            "last archive name 'epoch_0_0-1.parquet' does not match archive type 'hourly'"
                .to_string()
        )
    );
    assert_eq!(
        plan_next_archive(
            kind,
            bounds(0, 10),
            Some("hourly_0_0-18446744073709551615.parquet"),
            true
        ),
        Err("last archive end slot overflowed".to_string())
    );
    assert_eq!(
        plan_next_archive(
            kind,
            bounds(0, 10),
            Some("hourly_0_0-18446744073709551614.parquet"),
            true
        ),
        Err("archive end slot overflowed".to_string())
    );
}

#[test]
fn only_the_largest_kind_deletes() {
    let mut c = config(vec![ArchiveKind::Hourly, ArchiveKind::Epoch]);
    assert!(!should_delete_archived_data_range(&c, ArchiveKind::Epoch));
    c.delete_archived_data_range = true;
    assert!(should_delete_archived_data_range(&c, ArchiveKind::Epoch));
    assert!(!should_delete_archived_data_range(&c, ArchiveKind::Hourly));
    c.archive_kinds = Vec::new();
    assert!(!should_delete_archived_data_range(&c, ArchiveKind::Epoch));
}

#[test]
fn an_empty_database_ends_a_run() {
    let step = after_bounds(ArchiveKind::Hourly, "/archives/hourly".to_string(), None, 7);
    let (reason, seen, validated) = skipped_reason(step);
    assert_eq!(reason, "no transactions found in ClickHouse");
    assert_eq!(seen, None);
    assert!(!validated);
    let step =
        after_bounds(ArchiveKind::Hourly, "/archives/hourly".to_string(), Some(bounds(1, 2)), 7);
    assert!(matches!(step, ArchiveStep::LoadLatest { bounds: b } if b == bounds(1, 2)));
}

#[test]
fn too_few_slots_end_a_run() {
    let c = config(vec![ArchiveKind::Hourly]);
    let step = after_latest(
        &c,
        ArchiveKind::Hourly,
        "/archives/hourly".to_string(),
        bounds(0, 10),
        None,
        7,
    )
    .unwrap();
    let (reason, seen, validated) = skipped_reason(step);
    assert_eq!(reason, "not enough ClickHouse slots available for the next archive");
    assert_eq!(seen, Some(bounds(0, 10)));
    assert!(!validated);
    let step = after_latest(
        &c,
        ArchiveKind::Hourly,
        "/archives/hourly".to_string(),
        bounds(432_000, 500_000),
        None,
        7,
    )
    .unwrap();
    assert!(matches!(step, ArchiveStep::Validate { plan: p, .. } if p == plan()));
    let failed = after_latest(
        &c,
        ArchiveKind::Hourly,
        "/archives/hourly".to_string(),
        bounds(0, 10),
        Some("latest"),
        7,
    );
    assert_eq!(failed.err(), Some("unable to parse last archive name 'latest'".to_string()));
}

#[test]
fn warnings_are_confirmed_forced_or_end_a_run() {
    let mut c = config(vec![ArchiveKind::Hourly]);
    let check = |c: &Config, warnings: bool| {
        after_validation(
            c,
            ArchiveKind::Hourly,
            "/archives/hourly".to_string(),
            bounds(0, 10),
            plan(),
            validation(warnings),
            7,
        )
    };
    assert!(matches!(check(&c, false), ArchiveStep::Create { .. }));
    assert!(matches!(check(&c, true), ArchiveStep::Confirm { .. }));
    c.server_mode = true;
    let (reason, seen, validated) = skipped_reason(check(&c, true));
    assert_eq!(reason, "validation warnings require --force-archive in server mode");
    assert_eq!(seen, Some(bounds(0, 10)));
    assert!(validated);
    c.force_archive = true;
    assert!(matches!(check(&c, true), ArchiveStep::Create { .. }));
}

#[test]
fn a_declined_archive_ends_a_run() {
    let answered = |confirmed: bool| {
        after_confirmation(
            ArchiveKind::Hourly,
            "/archives/hourly".to_string(),
            bounds(0, 10),
            plan(),
            validation(true),
            confirmed,
            7,
        )
    };
    assert!(matches!(answered(true), ArchiveStep::Create { .. }));
    let (reason, seen, validated) = skipped_reason(answered(false));
    assert_eq!(reason, "user declined archive after validation warnings");
    assert_eq!(seen, Some(bounds(0, 10)));
    assert!(validated);
    assert!(confirms(" YES\n"));
    assert!(!confirms("y"));
    assert!(!confirms(""));
}

#[test]
fn warnings_name_the_archive() {
    assert_eq!(
        validation_warning(&plan(), &validation(true)),
        "WARNING: validation found issues for hourly_1_432000-440999.parquet (missing_blocks=2, transaction_mismatches=1, rpc_check_error=timeout)."
    );
    let mut v = validation(true);
    v.rpc_check_error = None;
    assert!(validation_warning(&plan(), &v).ends_with("rpc_check_error=none)."));
}

#[test]
fn a_created_archive_is_cleaned_up_and_reported() {
    let mut c = config(vec![ArchiveKind::Hourly]);
    let step = after_created(&c, ArchiveKind::Hourly, bounds(0, 10), plan(), validation(false));
    assert!(matches!(step, ArchiveStep::Cleanup { deleted: false, .. }));
    c.delete_archived_data_range = true;
    let step = after_created(&c, ArchiveKind::Hourly, bounds(0, 10), plan(), validation(false));
    assert!(matches!(step, ArchiveStep::Delete { .. }));
    let step = after_deleted(bounds(0, 10), plan(), validation(false));
    assert!(matches!(step, ArchiveStep::Cleanup { deleted: true, .. }));
    let report = after_cleanup(
        ArchiveKind::Hourly,
        "/archives/hourly".to_string(),
        bounds(432_000, 440_999),
        plan(),
        validation(false),
        true,
        vec!["a.parquet".to_string(), "b.parquet".to_string()],
        7,
    );
    assert_eq!(
        report.to_text(),
        "timestamp_unix: 7\narchive_created: true\narchive_name: hourly_1_432000-440999.parquet\narchive_kind: hourly\narchive_epoch: 1\narchive_slot_start: 432000\narchive_slot_end: 440999\ndb_earliest_slot: 432000\ndb_latest_slot: 440999\ndb_slots_available: 9000\ndestination: /archives/hourly\ndeleted_clickhouse_range: true\ncleaned_archives: a.parquet,b.parquet\nvalidation_missing_blocks: 2\nvalidation_missing_block_ranges: 5-6\nvalidation_not_produced_slot_ranges: none\nvalidation_transaction_mismatches: 1\nvalidation_transaction_mismatch_ranges: 9-9\nvalidation_rpc_check_error: timeout"
    );
}

#[test]
fn a_skipped_run_is_reported_with_its_reason() {
    let report = ArchiveRunReport::skipped(
        ArchiveKind::Custom { slots: 5 },
        "s3".to_string(),
        "no slots".to_string(),
        9,
    );
    assert_eq!(
        report.to_text(),
        "timestamp_unix: 9\narchive_created: false\narchive_skipped_reason: no slots\narchive_kind: custom:5\ndestination: s3\ndeleted_clickhouse_range: false"
    );
}

#[test]
fn reports_lie_beside_their_archive() {
    assert_eq!(
        report_path_for_local_archive("/archives".to_string(), "a.parquet"),
        "/archives/.a.parquet.report.txt"
    );
    assert_eq!(
        report_path_for_local_archive("/archives/".to_string(), "a.parquet"),
        "/archives/.a.parquet.report.txt"
    );
    assert_eq!(
        report_path_for_local_archive(String::new(), "a.parquet"),
        ".a.parquet.report.txt"
    );
}

#[test]
fn a_single_run_takes_the_first_kind() {
    let c = config(vec![ArchiveKind::Epoch, ArchiveKind::Hourly]);
    assert_eq!(single_run_kind(&c), ArchiveKind::Epoch);
    assert_eq!(log_level(0), "info");
    assert_eq!(log_level(1), "debug");
    assert_eq!(log_level(2), "trace");
    assert_eq!(log_level(9), "trace");
}

fn run(c: &Config, warnings: bool, confirmed: bool) -> (Vec<&'static str>, ArchiveRunReport) {
    let mut asked = Vec::new();
    let mut step = ArchiveStep::ReadBounds;
    loop {
        let (name, reply) = match &step {
            ArchiveStep::ReadBounds => {
                ("bounds", ArchiveReply::Bounds(Some(bounds(432_000, 500_000))))
            }
            ArchiveStep::LoadLatest { .. } => ("latest", ArchiveReply::Latest(None)),
            ArchiveStep::Validate { .. } => {
                ("validate", ArchiveReply::Validated(validation(warnings)))
            }
            ArchiveStep::Confirm { .. } => ("confirm", ArchiveReply::Confirmed(confirmed)),
            ArchiveStep::Create { .. } => ("create", ArchiveReply::Created),
            ArchiveStep::Delete { .. } => ("delete", ArchiveReply::Deleted),
            ArchiveStep::Cleanup { .. } => {
                ("cleanup", ArchiveReply::Cleaned(vec!["old.parquet".to_string()]))
            }
            ArchiveStep::Finished(_) => break,
        };
        asked.push(name);
        step =
            step.advance(c, ArchiveKind::Hourly, "/archives/hourly".to_string(), reply, 7).unwrap();
    }
    match step {
        ArchiveStep::Finished(report) => (asked, report),
        _ => panic!("the run is not over"),
    }
}

#[test]
fn slots_are_deleted_once_their_archive_is_written() {
    let mut c = config(vec![ArchiveKind::Hourly]);
    c.delete_archived_data_range = true;
    let (asked, report) = run(&c, false, false);
    assert_eq!(
        asked,
        vec!["bounds", "latest", "validate", "create", "delete", "cleanup"]
    );
    assert!(report.archive_created);
    assert!(report.deleted_clickhouse_range);
    assert_eq!(report.cleaned_archives, vec!["old.parquet".to_string()]);
    c.archive_kinds.push(ArchiveKind::Epoch);
    let (asked, report) = run(&c, false, false);
    assert_eq!(asked, vec!["bounds", "latest", "validate", "create", "cleanup"]);
    assert!(report.archive_created);
    assert!(!report.deleted_clickhouse_range);
}

#[test]
fn a_run_with_warnings_asks_first() {
    let c = config(vec![ArchiveKind::Hourly]);
    let (asked, report) = run(&c, true, true);
    assert_eq!(asked, vec!["bounds", "latest", "validate", "confirm", "create", "cleanup"]);
    assert!(report.archive_created);
    let (asked, report) = run(&c, true, false);
    assert_eq!(asked, vec!["bounds", "latest", "validate", "confirm"]);
    assert!(!report.archive_created);
}

#[test]
fn the_end_of_all_slots_matters_only_to_a_first_epoch() {
    let end = bounds(u64::MAX - 5, u64::MAX);
    let kind = ArchiveKind::Epoch;
    let plain = config(vec![kind]);
    assert!(!can_plan_next(&plain, kind, end, None));
    assert!(!can_plan_next(&plain, kind, end, Some("epoch_0_0-431999.parquet")));
    assert!(can_plan_next(&plain, kind, end, Some("latest")));
    assert_eq!(
        plan_next_archive(kind, end, Some("latest"), true),
        Err("unable to parse last archive name 'latest'".to_string())
    );
    assert!(can_plan_next(&plain, kind, end, Some("hourly_0_0-1.parquet")));
    assert_eq!(
        plan_next_archive(kind, end, Some("hourly_0_0-1.parquet"), true),
        Err(
            "last archive name 'hourly_0_0-1.parquet' does not match archive type 'epoch'"
                .to_string()
        )
    );
    assert!(can_plan_next(&plain, ArchiveKind::Hourly, end, None));
    assert!(!can_plan_next(&plain, ArchiveKind::Custom { slots: 0 }, bounds(0, 9), None));
    assert!(can_plan_next(&plain, kind, bounds(1, 2_000_000), None));
}

#[test]
fn the_next_archive_is_planned_once_its_slots_are_there() {
    let kind = ArchiveKind::Custom { slots: 10 };
    let last = Some("custom_0_100-109.parquet");
    assert_eq!(plan_next_archive(kind, bounds(100, 118), last, true), Ok(None));
    let next = plan_next_archive(kind, bounds(100, 119), last, true).unwrap().unwrap();
    assert_eq!((next.start_slot, next.end_slot), (110, 119));
}
