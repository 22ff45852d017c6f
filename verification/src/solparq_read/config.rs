//! What the command line of the archive reader asks for.
use vstd::prelude::*;

use crate::text;
use crate::text_search;

verus! {

/// A request.
#[derive(Debug)]
pub struct Cli {
    pub command: Command,
}

/// What is asked for.
#[derive(Debug)]
pub enum Command {
    List(ListArgs),
    Summary(ArchiveArgs),
    Schema(ArchiveArgs),
    Scan(ScanArgs),
}

/// Which archives to list.
#[derive(Debug)]
pub struct ListArgs {
    pub source: SourceArgs,
    pub archive_dir: Option<String>,
    pub archive_kind: Option<String>,
}

/// Which archive to read.
#[derive(Debug)]
pub struct ArchiveArgs {
    pub source: SourceArgs,
    pub archive: String,
    pub table: ArchiveTable,
}

/// Which rows of an archive to return, and how.
#[derive(Debug)]
pub struct ScanArgs {
    pub archive: ArchiveArgs,
    pub slot_range: Option<SlotRange>,
    pub all: bool,
    pub columns: Vec<String>,
    pub limit: Option<usize>,
    pub format: OutputFormat,
    pub selection: ScanSelection,
}

/// Where archives are.
#[derive(Debug)]
pub struct SourceArgs {
    pub archive_location_type: ArchiveLocationType,
    pub archive_s3_endpoint: Option<String>,
    pub archive_s3_bucket_name: Option<String>,
    pub archive_s3_bucket_path: String,
    pub archive_s3_auth_key: Option<String>,
    pub archive_s3_auth_secret_key: Option<String>,
    pub archive_s3_region: String,
}

/// The sort of place that archives are in.
#[derive(Debug, Clone, Copy, PartialEq, Eq, Structural)]
pub enum ArchiveLocationType {
    Local,
    S3,
}

/// A table of an archive.
#[derive(Debug, Clone, Copy, PartialEq, Eq, Structural)]
pub enum ArchiveTable {
    Transactions,
    BlocksMetadata,
    Entries,
    Gsfa,
    GsfaHot,
    Signatures,
    TokenOwnerActivity,
}

impl ArchiveTable {
    /// The name of a table.
    pub open spec fn name(self) -> Seq<char> {
        match self {
            ArchiveTable::Transactions => "transactions"@,
            ArchiveTable::BlocksMetadata => "blocks_metadata"@,
            ArchiveTable::Entries => "entries"@,
            ArchiveTable::Gsfa => "gsfa"@,
            ArchiveTable::GsfaHot => "gsfa_hot"@,
            ArchiveTable::Signatures => "signatures"@,
            ArchiveTable::TokenOwnerActivity => "token_owner_activity"@,
        }
    }

    /// The name of a table.
    pub fn as_str(self) -> (r: &'static str)
        ensures
            r@ == self.name(),
    {
        match self {
            ArchiveTable::Transactions => "transactions",
            ArchiveTable::BlocksMetadata => "blocks_metadata",
            ArchiveTable::Entries => "entries",
            ArchiveTable::Gsfa => "gsfa",
            ArchiveTable::GsfaHot => "gsfa_hot",
            ArchiveTable::Signatures => "signatures",
            ArchiveTable::TokenOwnerActivity => "token_owner_activity",
        }
    }
}

/// Which rows to return.
#[derive(Debug, Clone, Copy, PartialEq, Eq, Structural)]
pub enum ScanSelection {
    All,
    SlotRange { start_slot: u64, end_slot: u64 },
}

/// A range of slots, both ends taken in.
#[derive(Debug, Clone, Copy, PartialEq, Eq, Structural)]
pub struct SlotRange {
    pub start_slot: u64,
    pub end_slot: u64,
}

/// How rows are written.
#[derive(Debug, Clone, Copy, PartialEq, Eq, Structural)]
pub enum OutputFormat {
    Jsonl,
    Json,
    Csv,
}

impl Command {
    /// The arguments of a scan, where one is asked for.
    pub fn scan_args(&self) -> (r: Option<&ScanArgs>)
        ensures
            match *self {
                Command::Scan(args) => r == Some(&args),
                _ => r is None,
            },
    {
        match self {
            Command::Scan(args) => Some(args),
            Command::List(_) | Command::Summary(_) | Command::Schema(_) => None,
        }
    }
}

/// The rows that a range or the wish for all of them select, where exactly one is given.
pub open spec fn selected(slot_range: Option<SlotRange>, all: bool) -> Option<ScanSelection> {
    match (slot_range, all) {
        (Some(range), false) => Some(
            ScanSelection::SlotRange { start_slot: range.start_slot, end_slot: range.end_slot },
        ),
        (None, true) => Some(ScanSelection::All),
        _ => None,
    }
}

impl Cli {
    /// Settles which rows a scan returns.
    pub fn finalize(self) -> (r: Result<Cli, String>)
        ensures
            match self.command {
                Command::Scan(scan) => match selected(scan.slot_range, scan.all) {
                    Some(selection) => r == Ok::<Cli, String>(
                        Cli { command: Command::Scan(ScanArgs { selection, ..scan }) },
                    ),
                    None => r matches Err(e) && e@
                        == "exactly one of --slot-range or --all is required"@,
                },
                _ => r == Ok::<Cli, String>(self),
            },
    {
        match self.command {
            Command::Scan(scan) => {
                let selection = match (scan.slot_range, scan.all) {
                    (Some(range), false) => ScanSelection::SlotRange {
                        start_slot: range.start_slot,
                        end_slot: range.end_slot,
                    },
                    (None, true) => ScanSelection::All,
                    _ => {
                        return Err("exactly one of --slot-range or --all is required".to_owned());
                    },
                };
                let mut scan = scan;
                scan.selection = selection;
                Ok(Cli { command: Command::Scan(scan) })
            },
            command => Ok(Cli { command }),
        }
    }
}

/// The range that a text of the form `START-END` means, or what is wrong with it.
pub open spec fn slot_range_of(value: Seq<char>) -> Result<SlotRange, Seq<char>> {
    let p = text_search::first_position(value, '-');
    if p == value.len() {
        Err("slot range must be formatted START-END"@)
    } else {
        match text::unsigned_text(value.take(p), u64::MAX as nat) {
            None => Err("slot range start must be an unsigned integer"@),
            Some(start) => match text::unsigned_text(value.skip(p + 1), u64::MAX as nat) {
                None => Err("slot range end must be an unsigned integer"@),
                Some(end) => if end < start {
                    Err("slot range end must be greater than or equal to start"@)
                } else {
                    Ok(SlotRange { start_slot: start as u64, end_slot: end as u64 })
                },
            },
        }
    }
}

/// Reads a range of slots.
pub fn parse_slot_range(value: &str) -> (r: Result<SlotRange, String>)
    ensures
        match r {
            Ok(range) => slot_range_of(value@) == Ok::<SlotRange, Seq<char>>(range),
            Err(e) => slot_range_of(value@) == Err::<SlotRange, Seq<char>>(e@),
        },
{
    let (start, end) = match text_search::split_once_text(value, '-') {
        Some(parts) => parts,
        None => {
            return Err("slot range must be formatted START-END".to_owned());
        },
    };
    let start_slot: u64 = match text::parse_u64_text(start.as_str()) {
        Some(start_slot) => start_slot,
        None => {
            return Err("slot range start must be an unsigned integer".to_owned());
        },
    };
    let end_slot: u64 = match text::parse_u64_text(end.as_str()) {
        Some(end_slot) => end_slot,
        None => {
            return Err("slot range end must be an unsigned integer".to_owned());
        },
    };
    if end_slot < start_slot {
        return Err("slot range end must be greater than or equal to start".to_owned());
    }
    Ok(SlotRange { start_slot, end_slot })
}

/// Reading a range as it is written gives it back.
pub proof fn law_slot_range_round_trip(start: u64, end: u64)
    requires
        start <= end,
    ensures
        slot_range_of(text::dec(start as nat) + "-"@ + text::dec(end as nat)) == Ok::<
            SlotRange,
            Seq<char>,
        >(SlotRange { start_slot: start, end_slot: end }),
{
    reveal_strlit("-");
    let a = text::dec(start as nat);
    let b = text::dec(end as nat);
    text::law_decimal_round_trip(start as nat);
    text::law_decimal_round_trip(end as nat);
    assert(text::is_digit(a[0]) && text::is_digit(b[0]));
    assert("-"@ =~= seq!['-']);
    assert forall|i: int| 0 <= i < a.len() implies #[trigger] a[i] != '-' by {
        assert(text::is_digit(a[i]));
    }
    text_search::lemma_first_position_of_join(a, '-', b);
    let value = a + seq!['-'] + b;
    assert(value.take(a.len() as int) =~= a);
    assert(value.skip(a.len() as int + 1) =~= b);
}

/// Either a range of slots or all rows have to be asked for, and what is asked for is selected.
pub proof fn law_selection_is_what_is_asked_for(slot_range: Option<SlotRange>, all: bool)
    ensures
        selected(slot_range, all) is Some <==> (slot_range is Some) != all,
        selected(slot_range, all) matches Some(s) ==> (s is All <==> all),
        selected(slot_range, all) matches Some(ScanSelection::SlotRange { start_slot, end_slot }) ==> {
            &&& slot_range is Some
            &&& start_slot == slot_range->0.start_slot
            &&& end_slot == slot_range->0.end_slot
        },
{
}

/// A range that ends before it starts is refused, and so is a text without a dash.
pub proof fn law_crossed_ranges_are_refused(start: u64, end: u64, value: Seq<char>)
    ensures
        end < start ==> slot_range_of(text::dec(start as nat) + "-"@ + text::dec(end as nat)) is Err,
        !value.contains('-') ==> slot_range_of(value) is Err,
        slot_range_of(value) matches Ok(range) ==> range.start_slot <= range.end_slot,
{
    let first = text::dec(start as nat);
    let last = text::dec(end as nat);
    reveal_strlit("-");
    text::law_decimal_round_trip(start as nat);
    text::law_decimal_round_trip(end as nat);
    text::law_numbers_are_read_from_their_digits(start as nat, u64::MAX as nat, first);
    text::law_numbers_are_read_from_their_digits(end as nat, u64::MAX as nat, last);
    assert forall|i: int| 0 <= i < first.len() implies #[trigger] first[i] != '-' by {
        assert(text::is_digit(first[i]));
    }
    text_search::lemma_first_position_of_join(first, '-', last);
    let whole = first + "-"@ + last;
    assert(whole =~= first + seq!['-'] + last);
    assert(whole.take(first.len() as int) =~= first);
    assert(whole.skip(first.len() as int + 1) =~= last);
    text_search::lemma_first_position(value, '-');
    if !value.contains('-') && text_search::first_position(value, '-') < value.len() {
        assert(value[text_search::first_position(value, '-')] == '-');
    }
}

/// The tables of an archive go by the names of the database.
pub proof fn law_tables_go_by_their_names()
    ensures
        ArchiveTable::Transactions.name() == "transactions"@,
        ArchiveTable::BlocksMetadata.name() == "blocks_metadata"@,
        ArchiveTable::Entries.name() == "entries"@,
        ArchiveTable::Gsfa.name() == "gsfa"@,
        ArchiveTable::GsfaHot.name() == "gsfa_hot"@,
        ArchiveTable::Signatures.name() == "signatures"@,
        ArchiveTable::TokenOwnerActivity.name() == "token_owner_activity"@,
{
}

} // verus!
