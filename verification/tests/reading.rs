//! Reading archives.
use superbank::solparq_read::config::{
    parse_slot_range, ArchiveArgs, ArchiveLocationType, ArchiveTable, Cli, Command, ListArgs,
    OutputFormat, ScanArgs, ScanSelection, SlotRange, SourceArgs,
};
use superbank::solparq_read::query::{
    enrich_batch_error, limit_reached, project_row, projection_mask, row_matches_selection,
    scan_projection, scan_rows, slot_value, summarize_slots, transaction_rows, validate_columns,
    ColumnMask, Projection, ScanOptions, SlotCell, SlotSummary,
};

fn source() -> SourceArgs {
    SourceArgs {
        archive_location_type: ArchiveLocationType::Local,
        archive_s3_endpoint: None,
        archive_s3_bucket_name: None,
        archive_s3_bucket_path: String::new(),
        archive_s3_auth_key: None,
        archive_s3_auth_secret_key: None,
        archive_s3_region: "us-east-1".to_string(),
    }
}

fn scan(slot_range: Option<SlotRange>, all: bool) -> Cli {
    Cli {
        command: Command::Scan(ScanArgs {
            archive: ArchiveArgs {
                source: source(),
                archive: "a.parquet".to_string(),
                table: ArchiveTable::Transactions,
            },
            slot_range,
            all,
            columns: texts(&["slot"]),
            limit: Some(3),
            format: OutputFormat::Jsonl,
            selection: ScanSelection::All,
        }),
    }
}

fn texts(items: &[&str]) -> Vec<String> {
    items.iter().map(|item| item.to_string()).collect()
}

fn options(selection: ScanSelection, columns: &[&str], limit: Option<usize>) -> ScanOptions {
    ScanOptions { selection, columns: texts(columns), limit }
}

fn row(slot: u64) -> (Option<u64>, Vec<(String, u64)>) {
    (Some(slot), vec![("slot".to_string(), slot), ("fee".to_string(), slot * 10)])
}

const RANGE: ScanSelection = ScanSelection::SlotRange { start_slot: 5, end_slot: 7 };

#[test]
fn slot_ranges_are_read() {
    assert_eq!(parse_slot_range("5-7"), Ok(SlotRange { start_slot: 5, end_slot: 7 }));
    assert_eq!(parse_slot_range("5-5"), Ok(SlotRange { start_slot: 5, end_slot: 5 }));
    assert_eq!(
        parse_slot_range("0-18446744073709551615"),
        Ok(SlotRange { start_slot: 0, end_slot: u64::MAX })
    );
}

#[test]
fn wrong_slot_ranges_are_refused() {
    assert_eq!(
        parse_slot_range("57"),
        Err("slot range must be formatted START-END".to_string())
    );
    assert_eq!(
        parse_slot_range("a-7"),
        Err("slot range start must be an unsigned integer".to_string())
    );
    assert_eq!(
        parse_slot_range("-7"),
        Err("slot range start must be an unsigned integer".to_string())
    );
    assert_eq!(
        parse_slot_range("5-7-9"),
        Err("slot range end must be an unsigned integer".to_string())
    );
    assert_eq!(
        parse_slot_range("0-18446744073709551616"),
        Err("slot range end must be an unsigned integer".to_string())
    );
    assert_eq!(
        parse_slot_range("7-5"),
        Err("slot range end must be greater than or equal to start".to_string())
    );
}

#[test]
fn a_scan_selects_a_range_or_everything() {
    let range = Some(SlotRange { start_slot: 5, end_slot: 7 });
    let cli = scan(range, false).finalize().unwrap();
    let args = cli.command.scan_args().unwrap();
    assert_eq!(args.selection, RANGE);
    assert_eq!(args.slot_range, range);
    assert_eq!(args.columns, texts(&["slot"]));
    assert_eq!(args.limit, Some(3));
    let cli = scan(None, true).finalize().unwrap();
    assert_eq!(cli.command.scan_args().unwrap().selection, ScanSelection::All);
    let message = "exactly one of --slot-range or --all is required";
    assert_eq!(scan(None, false).finalize().err().as_deref(), Some(message));
    assert_eq!(scan(range, true).finalize().err().as_deref(), Some(message));
}

#[test]
fn other_commands_are_left_alone() {
    let cli = Cli {
        command: Command::List(ListArgs {
            source: source(),
            archive_dir: Some("/archives".to_string()),
            archive_kind: None,
        }),
    };
    let cli = cli.finalize().unwrap();
    assert!(cli.command.scan_args().is_none());
    match cli.command {
        Command::List(list) => assert_eq!(list.archive_dir.as_deref(), Some("/archives")),
        _ => panic!("another command"),
    }
}

#[test]
fn tables_have_names() {
    assert_eq!(ArchiveTable::Transactions.as_str(), "transactions");
    assert_eq!(ArchiveTable::BlocksMetadata.as_str(), "blocks_metadata");
    assert_eq!(ArchiveTable::Entries.as_str(), "entries");
    assert_eq!(ArchiveTable::Gsfa.as_str(), "gsfa");
    assert_eq!(ArchiveTable::GsfaHot.as_str(), "gsfa_hot");
    assert_eq!(ArchiveTable::Signatures.as_str(), "signatures");
    assert_eq!(ArchiveTable::TokenOwnerActivity.as_str(), "token_owner_activity");
}

#[test]
fn slots_are_read_from_four_kinds_of_columns() {
    assert_eq!(slot_value(SlotCell::Null), Ok(None));
    assert_eq!(slot_value(SlotCell::UInt64(u64::MAX)), Ok(Some(u64::MAX)));
    assert_eq!(slot_value(SlotCell::UInt32(7)), Ok(Some(7)));
    assert_eq!(slot_value(SlotCell::Int64(8)), Ok(Some(8)));
    assert_eq!(slot_value(SlotCell::Int32(9)), Ok(Some(9)));
    let negative = Err("slot column contains a negative value".to_string());
    assert_eq!(slot_value(SlotCell::Int64(-1)), negative);
    assert_eq!(slot_value(SlotCell::Int32(-1)), negative);
    assert_eq!(
        slot_value(SlotCell::Unsupported),
        Err("slot column must be UInt64, UInt32, Int64, or Int32".to_string())
    );
}

#[test]
fn slots_are_summarized() {
    let cells = [
        SlotCell::UInt64(9),
        SlotCell::Null,
        SlotCell::UInt64(4),
        SlotCell::UInt64(9),
        SlotCell::UInt64(6),
    ];
    assert_eq!(
        summarize_slots(&cells),
        Ok(SlotSummary { min_slot: Some(4), max_slot: Some(9), distinct_slots: 3 })
    );
    assert_eq!(
        summarize_slots(&[]),
        Ok(SlotSummary { min_slot: None, max_slot: None, distinct_slots: 0 })
    );
    assert_eq!(
        summarize_slots(&[SlotCell::UInt64(9), SlotCell::Int32(-4), SlotCell::Unsupported]),
        Err("slot column contains a negative value".to_string())
    );
}

#[test]
fn a_ranged_scan_reads_the_slots_too() {
    assert!(matches!(scan_projection(&options(RANGE, &[], None)), Projection::All));
    match scan_projection(&options(RANGE, &["fee"], None)) {
        Projection::Columns(columns) => assert_eq!(columns, texts(&["fee", "slot"])),
        Projection::All => panic!("all columns"),
    }
    match scan_projection(&options(RANGE, &["slot", "fee"], None)) {
        Projection::Columns(columns) => assert_eq!(columns, texts(&["slot", "fee"])),
        Projection::All => panic!("all columns"),
    }
    match scan_projection(&options(ScanSelection::All, &["fee"], None)) {
        Projection::Columns(columns) => assert_eq!(columns, texts(&["fee"])),
        Projection::All => panic!("all columns"),
    }
}

#[test]
fn requested_columns_must_be_in_the_archive() {
    let schema = texts(&["slot", "fee"]);
    let missing = "archive does not contain requested column 'memo'".to_string();
    assert_eq!(validate_columns(&schema, &Vec::new()), Ok(()));
    assert_eq!(validate_columns(&schema, &texts(&["fee"])), Ok(()));
    assert_eq!(validate_columns(&schema, &texts(&["fee", "memo", "x"])), Err(missing.clone()));
    assert!(matches!(projection_mask(&schema, Projection::All), Ok(ColumnMask::All)));
    assert!(matches!(
        projection_mask(&schema, Projection::Columns(Vec::new())),
        Ok(ColumnMask::Nothing)
    ));
    match projection_mask(&schema, Projection::Columns(texts(&["fee"]))) {
        Ok(ColumnMask::Only(columns)) => assert_eq!(columns, texts(&["fee"])),
        _ => panic!("no column"),
    }
    assert_eq!(
        projection_mask(&schema, Projection::Columns(texts(&["memo"]))).err(),
        Some(missing)
    );
}

#[test]
fn row_counts_are_not_negative() {
    assert_eq!(transaction_rows(-3), 0);
    assert_eq!(transaction_rows(0), 0);
    assert_eq!(transaction_rows(12), 12);
}

#[test]
fn unreadable_texts_are_explained() {
    let hint = "read; archive contains a UTF8-typed column with non-UTF8 bytes. Use --columns to read only the fields you need, for example --columns slot,signature";
    assert_eq!(enrich_batch_error("read".to_string(), "found non UTF-8 data"), hint);
    assert_eq!(enrich_batch_error("read".to_string(), "non-UTF8"), hint);
    assert_eq!(enrich_batch_error("read".to_string(), "end of file"), "read");
}

#[test]
fn rows_are_selected_by_their_slot() {
    assert_eq!(row_matches_selection(None, ScanSelection::All), Ok(true));
    assert_eq!(row_matches_selection(Some(4), RANGE), Ok(false));
    assert_eq!(row_matches_selection(Some(5), RANGE), Ok(true));
    assert_eq!(row_matches_selection(Some(7), RANGE), Ok(true));
    assert_eq!(row_matches_selection(Some(8), RANGE), Ok(false));
    assert_eq!(
        row_matches_selection(None, RANGE),
        Err("archive row does not contain an unsigned slot value".to_string())
    );
}

#[test]
fn rows_keep_the_requested_columns_in_order() {
    let (_, full) = row(5);
    assert_eq!(project_row(full.clone(), &Vec::new()), full);
    assert_eq!(
        project_row(full.clone(), &texts(&["fee", "slot"])),
        vec![("fee".to_string(), 50), ("slot".to_string(), 5)]
    );
    assert_eq!(
        project_row(full, &texts(&["fee", "memo", "fee"])),
        vec![("fee".to_string(), 50)]
    );
}

#[test]
fn a_scan_stops_at_its_limit() {
    let mut rows = Vec::new();
    let limited = options(RANGE, &["fee"], Some(2));
    let done = scan_rows(&mut rows, vec![row(4), row(5), row(6), row(7)], &limited);
    assert_eq!(done, Ok(true));
    assert_eq!(rows, vec![vec![("fee".to_string(), 50)], vec![("fee".to_string(), 60)]]);
    let mut rows = Vec::new();
    let open = options(RANGE, &["fee"], None);
    assert_eq!(scan_rows(&mut rows, vec![row(4), row(5)], &open), Ok(false));
    assert_eq!(scan_rows(&mut rows, vec![row(6), row(9)], &open), Ok(false));
    assert_eq!(rows.len(), 2);
    let mut at_once = Vec::new();
    let all = vec![row(4), row(5), row(6), row(9)];
    assert_eq!(scan_rows(&mut at_once, all, &open), Ok(false));
    assert_eq!(at_once, rows);
    let mut least = Vec::new();
    let none = options(RANGE, &["fee"], Some(0));
    assert_eq!(scan_rows(&mut least, vec![row(5), row(6)], &none), Ok(true));
    assert!(least.is_empty());
    assert_eq!(scan_rows(&mut least, Vec::new(), &none), Ok(true));
    assert!(limit_reached(2, Some(2)));
    assert!(!limit_reached(1, Some(2)));
    assert!(!limit_reached(9, None));
}

#[test]
fn a_scan_ends_at_a_row_without_a_slot() {
    let mut rows = Vec::new();
    let done = scan_rows(
        &mut rows,
        vec![row(5), (None, Vec::new()), row(6)],
        &options(RANGE, &[], None),
    );
    assert_eq!(done, Err("archive row does not contain an unsigned slot value".to_string()));
}
