//! Summaries of archives, and the selection, projection and limit of their rows.
use vstd::prelude::*;

use crate::clickhouse::slots;
use crate::solparq::archive::ParsedArchiveName;
use crate::solparq_read::config::ScanSelection;
use crate::text;
use crate::text_search;

verus! {

/// Which rows and columns to return, and how many rows at most.
#[derive(Debug)]
pub struct ScanOptions {
    pub selection: ScanSelection,
    pub columns: Vec<String>,
    pub limit: Option<usize>,
}

/// What an archive holds.
#[derive(Debug)]
pub struct ArchiveSummary {
    pub archive_path: String,
    pub archive_name: String,
    pub parsed_name: Option<ParsedArchiveName>,
    pub transaction_rows: u64,
    pub actual_min_slot: Option<u64>,
    pub actual_max_slot: Option<u64>,
    pub observed_slots: u64,
    pub observed_blocks: u64,
    pub row_groups: usize,
    pub columns: usize,
    pub size_bytes: Option<u64>,
}

/// The columns of an archive.
#[derive(Debug)]
pub struct ArchiveSchema {
    pub archive_path: String,
    pub fields: Vec<SchemaField>,
}

/// A column of an archive.
#[derive(Debug)]
pub struct SchemaField {
    pub name: String,
    pub data_type: String,
    pub nullable: bool,
}

/// A value of a slot column, by the type of the column.
#[derive(Debug, Clone, Copy, PartialEq, Eq, Structural)]
pub enum SlotCell {
    Null,
    UInt64(u64),
    UInt32(u32),
    Int64(i64),
    Int32(i32),
    Unsupported,
}

/// The slot in a cell, or what is wrong with it.
pub open spec fn cell_slot(cell: SlotCell) -> Result<Option<u64>, Seq<char>> {
    match cell {
        SlotCell::Null => Ok(None),
        SlotCell::UInt64(v) => Ok(Some(v)),
        SlotCell::UInt32(v) => Ok(Some(v as u64)),
        SlotCell::Int64(v) => if v < 0 {
            Err("slot column contains a negative value"@)
        } else {
            Ok(Some(v as u64))
        },
        SlotCell::Int32(v) => if v < 0 {
            Err("slot column contains a negative value"@)
        } else {
            Ok(Some(v as u64))
        },
        SlotCell::Unsupported => Err("slot column must be UInt64, UInt32, Int64, or Int32"@),
    }
}

/// Reads the slot in a cell.
pub fn slot_value(cell: SlotCell) -> (r: Result<Option<u64>, String>)
    ensures
        match r {
            Ok(slot) => cell_slot(cell) == Ok::<Option<u64>, Seq<char>>(slot),
            Err(e) => cell_slot(cell) == Err::<Option<u64>, Seq<char>>(e@),
        },
{
    match cell {
        SlotCell::Null => Ok(None),
        SlotCell::UInt64(v) => Ok(Some(v)),
        SlotCell::UInt32(v) => Ok(Some(v as u64)),
        SlotCell::Int64(v) => {
            if v < 0 {
                Err("slot column contains a negative value".to_owned())
            } else {
                Ok(Some(v as u64))
            }
        },
        SlotCell::Int32(v) => {
            if v < 0 {
                Err("slot column contains a negative value".to_owned())
            } else {
                Ok(Some(v as u64))
            }
        },
        SlotCell::Unsupported => Err(
            "slot column must be UInt64, UInt32, Int64, or Int32".to_owned(),
        ),
    }
}

/// The slots in some cells, up to the first cell that is wrong.
pub open spec fn cell_slots(cells: Seq<SlotCell>) -> Result<Seq<u64>, Seq<char>>
    decreases cells.len(),
{
    if cells.len() == 0 {
        Ok(Seq::empty())
    } else {
        match cell_slots(cells.drop_last()) {
            Err(e) => Err(e),
            Ok(found) => match cell_slot(cells.last()) {
                Err(e) => Err(e),
                Ok(None) => Ok(found),
                Ok(Some(slot)) => Ok(found.push(slot)),
            },
        }
    }
}

/// What the slots of an archive come to.
#[derive(Debug, Clone, Copy, PartialEq, Eq, Structural)]
pub struct SlotSummary {
    pub min_slot: Option<u64>,
    pub max_slot: Option<u64>,
    pub distinct_slots: u64,
}

/// Whether a summary gives the smallest slot, the largest, and the number of different ones.
pub open spec fn summarizes(summary: SlotSummary, slots: Seq<u64>) -> bool {
    &&& summary.distinct_slots == slots.to_set().len()
    &&& match (summary.min_slot, summary.max_slot) {
        (Some(min), Some(max)) => {
            &&& slots.contains(min)
            &&& slots.contains(max)
            &&& forall|x: u64| #[trigger] slots.contains(x) ==> min <= x <= max
        },
        (None, None) => slots.len() == 0,
        _ => false,
    }
}

proof fn lemma_cell_slots_prefix_error(cells: Seq<SlotCell>, n: int, e: Seq<char>)
    requires
        0 <= n <= cells.len(),
        cell_slots(cells.take(n)) == Err::<Seq<u64>, Seq<char>>(e),
    ensures
        cell_slots(cells) == Err::<Seq<u64>, Seq<char>>(e),
    decreases cells.len() - n,
{
    if n == cells.len() {
        assert(cells.take(n) =~= cells);
    } else {
        assert(cells.take(n + 1).drop_last() =~= cells.take(n));
        lemma_cell_slots_prefix_error(cells, n + 1, e);
    }
}

/// Summarizes the slots of an archive.
pub fn summarize_slots(cells: &[SlotCell]) -> (r: Result<SlotSummary, String>)
    requires
        cells@.len() <= u64::MAX,
    ensures
        match cell_slots(cells@) {
            Ok(found) => r matches Ok(summary) && summarizes(summary, found),
            Err(message) => r matches Err(e) && e@ == message,
        },
{
    let mut found: Vec<u64> = Vec::new();
    let mut i: usize = 0;
    proof {
        assert(cells@.take(0) =~= Seq::<SlotCell>::empty());
    }
    while i < cells.len()
        invariant
            i <= cells@.len(),
            cell_slots(cells@.take(i as int)) == Ok::<Seq<u64>, Seq<char>>(found@),
            found@.len() <= i,
        decreases cells@.len() - i,
    {
        proof {
            assert(cells@.take(i + 1).drop_last() =~= cells@.take(i as int));
        }
        match slot_value(cells[i]) {
            Ok(Some(slot)) => found.push(slot),
            Ok(None) => (),
            Err(e) => {
                proof {
                    lemma_cell_slots_prefix_error(cells@, i + 1, e@);
                }
                return Err(e);
            },
        }
        i += 1;
    }
    proof {
        assert(cells@.take(cells@.len() as int) =~= cells@);
    }
    let ghost all = found@;
    let distinct = slots::normalize_slots(found);
    proof {
        let d = distinct@;
        assert(d.no_duplicates());
        d.unique_seq_to_set();
        assert(d.to_set() =~= all.to_set()) by {
            assert forall|x: u64| d.to_set().contains(x) <==> all.to_set().contains(x) by {
                assert(d.contains(x) <==> all.contains(x));
            }
        }
        all.lemma_cardinality_of_set();
    }
    if distinct.len() == 0 {
        proof {
            if all.len() > 0 {
                assert(all.contains(all[0]));
                assert(distinct@.contains(all[0]));
            }
        }
        return Ok(SlotSummary { min_slot: None, max_slot: None, distinct_slots: 0 });
    }
    let n: usize = distinct.len();
    let min_slot: u64 = distinct[0];
    let max_slot: u64 = distinct[n - 1];
    proof {
        assert(distinct@.contains(min_slot));
        assert(distinct@.contains(max_slot));
        assert forall|x: u64| #[trigger] all.contains(x) implies min_slot <= x <= max_slot by {
            assert(distinct@.contains(x));
            let k = choose|k: int| 0 <= k < distinct@.len() && distinct@[k] == x;
            if k > 0 {
                assert(distinct@[0] < distinct@[k]);
            }
            if k < n - 1 {
                assert(distinct@[k] < distinct@[n - 1]);
            }
        }
    }
    Ok(SlotSummary { min_slot: Some(min_slot), max_slot: Some(max_slot), distinct_slots: n as u64 })
}

/// Which columns to read.
#[derive(Debug)]
pub enum Projection {
    All,
    Columns(Vec<String>),
}

/// The columns to read for a scan: those that are asked for, and the slot where it decides.
pub open spec fn columns_to_read(options: ScanOptions) -> Option<Seq<Seq<char>>> {
    let columns = text::texts(options.columns@);
    if columns.len() == 0 {
        None
    } else if options.selection is SlotRange && !columns.contains("slot"@) {
        Some(columns.push("slot"@))
    } else {
        Some(columns)
    }
}

fn clone_texts(list: &Vec<String>) -> (r: Vec<String>)
    ensures
        text::texts(r@) == text::texts(list@),
{
    let mut r: Vec<String> = Vec::new();
    let mut i: usize = 0;
    while i < list.len()
        invariant
            i <= list.len(),
            text::texts(r@) == text::texts(list@).take(i as int),
        decreases list.len() - i,
    {
        text::push_text(&mut r, list[i].clone());
        i += 1;
        proof {
            let all = text::texts(list@);
            assert(all.take(i as int) =~= all.take(i - 1).push(all[i - 1]));
        }
    }
    proof {
        let all = text::texts(list@);
        assert(all.take(all.len() as int) =~= all);
    }
    r
}

/// Decides which columns to read for a scan.
pub fn scan_projection(options: &ScanOptions) -> (r: Projection)
    ensures
        match r {
            Projection::All => columns_to_read(*options) is None,
            Projection::Columns(columns) => columns_to_read(*options) == Some(
                text::texts(columns@),
            ),
        },
{
    if options.columns.len() == 0 {
        return Projection::All;
    }
    let mut columns = clone_texts(&options.columns);
    let ranged = match options.selection {
        ScanSelection::SlotRange { .. } => true,
        ScanSelection::All => false,
    };
    if ranged && !text::holds_text(&columns, "slot") {
        text::push_text(&mut columns, "slot".to_owned());
    }
    Projection::Columns(columns)
}

/// Whether `message` names the first column that is asked for and not there.
pub open spec fn names_missing_column(
    schema: Seq<Seq<char>>,
    columns: Seq<Seq<char>>,
    message: Seq<char>,
) -> bool {
    exists|i: int|
        {
            &&& 0 <= i < columns.len()
            &&& !schema.contains(#[trigger] columns[i])
            &&& forall|k: int| 0 <= k < i ==> schema.contains(#[trigger] columns[k])
            &&& message == ("archive does not contain requested column '"@ + columns[i] + "'"@)
        }
}

/// Checks that an archive has the columns that are asked for.
pub fn validate_columns(schema: &Vec<String>, columns: &Vec<String>) -> (r: Result<(), String>)
    ensures
        match r {
            Ok(()) => forall|i: int|
                0 <= i < columns@.len() ==> text::texts(schema@).contains(
                    #[trigger] text::texts(columns@)[i],
                ),
            Err(e) => names_missing_column(text::texts(schema@), text::texts(columns@), e@),
        },
{
    let mut i: usize = 0;
    while i < columns.len()
        invariant
            i <= columns.len(),
            forall|k: int|
                0 <= k < i ==> text::texts(schema@).contains(#[trigger] text::texts(columns@)[k]),
        decreases columns.len() - i,
    {
        let column = columns[i].as_str();
        assert(text::texts(columns@)[i as int] == column@);
        if !text::holds_text(schema, column) {
            return Err({
                let mut m = "archive does not contain requested column '".to_owned();
                m.append(column);
                m.append("'");
                m
            });
        }
        i += 1;
    }
    Ok(())
}

/// The columns that a reader is told to read.
#[derive(Debug)]
pub enum ColumnMask {
    /// All of them.
    All,
    /// None: only what an archive says of itself is read.
    Nothing,
    /// These.
    Only(Vec<String>),
}

/// Decides which columns a reader is told to read of an archive with these columns. Those that are
/// asked for have to be there.
pub fn projection_mask(schema: &Vec<String>, projection: Projection) -> (r: Result<ColumnMask, String>)
    ensures
        match projection {
            Projection::All => r matches Ok(mask) && mask is All,
            Projection::Columns(columns) => if columns@.len() == 0 {
                r matches Ok(mask) && mask is Nothing
            } else if forall|i: int|
                0 <= i < columns@.len() ==> text::texts(schema@).contains(
                    #[trigger] text::texts(columns@)[i],
                ) {
                r == Ok::<ColumnMask, String>(ColumnMask::Only(columns))
            } else {
                r matches Err(e) && names_missing_column(
                    text::texts(schema@),
                    text::texts(columns@),
                    e@,
                )
            },
        },
{
    match projection {
        Projection::All => Ok(ColumnMask::All),
        Projection::Columns(columns) => {
            if columns.len() == 0 {
                return Ok(ColumnMask::Nothing);
            }
            match validate_columns(schema, &columns) {
                Ok(()) => Ok(ColumnMask::Only(columns)),
                Err(e) => Err(e),
            }
        },
    }
}

/// The number of rows that an archive says it has. A negative one is none.
pub fn transaction_rows(num_rows: i64) -> (r: u64)
    ensures
        r == (if num_rows < 0 {
            0
        } else {
            num_rows as int
        }),
{
    if num_rows < 0 {
        0
    } else {
        num_rows as u64
    }
}

/// The context of a batch that could not be read. Where a text column holds other bytes, it says
/// what to do.
pub open spec fn batch_context(context: Seq<char>, detail: Seq<char>) -> Seq<char> {
    if text_search::contains(detail, "non UTF-8"@) || text_search::contains(detail, "non-UTF8"@) {
        (context + "; archive contains a UTF8-typed column with non-UTF8 bytes. Use --columns to read only the fields you need, for example --columns slot,signature"@)
    } else {
        context
    }
}

/// Writes the context of a batch that could not be read.
pub fn enrich_batch_error(context: String, detail: &str) -> (r: String)
    ensures
        r@ == batch_context(context@, detail@),
{
    if text_search::contains_text(detail, "non UTF-8") || text_search::contains_text(
        detail,
        "non-UTF8",
    ) {
        let mut m = context.as_str().to_owned();
        m.append("; archive contains a UTF8-typed column with non-UTF8 bytes. Use --columns to read only the fields you need, for example --columns slot,signature");
        m
    } else {
        context
    }
}

/// Whether a row is selected, by its slot. A range needs the slot.
pub open spec fn row_selected(slot: Option<u64>, selection: ScanSelection) -> Result<bool, Seq<char>> {
    match selection {
        ScanSelection::All => Ok(true),
        ScanSelection::SlotRange { start_slot, end_slot } => match slot {
            None => Err("archive row does not contain an unsigned slot value"@),
            Some(s) => Ok(start_slot <= s <= end_slot),
        },
    }
}

/// Decides whether a row is selected.
pub fn row_matches_selection(slot: Option<u64>, selection: ScanSelection) -> (r: Result<bool, String>)
    ensures
        match r {
            Ok(b) => row_selected(slot, selection) == Ok::<bool, Seq<char>>(b),
            Err(e) => row_selected(slot, selection) == Err::<bool, Seq<char>>(e@),
        },
{
    match selection {
        ScanSelection::All => Ok(true),
        ScanSelection::SlotRange { start_slot, end_slot } => match slot {
            None => Err("archive row does not contain an unsigned slot value".to_owned()),
            Some(s) => Ok(start_slot <= s && s <= end_slot),
        },
    }
}

/// A row: its values, each under the name of its column.
pub type Row<V> = Vec<(String, V)>;

/// The position of a column in a row, or the length of the row.
pub open spec fn column_position<V>(row: Seq<(String, V)>, name: Seq<char>) -> int
    decreases row.len(),
{
    if row.len() == 0 || row[0].0@ == name {
        0
    } else {
        1 + column_position(row.skip(1), name)
    }
}

/// The values of the columns that are asked for, in the order in which they are asked for. A
/// column gives its value once.
pub open spec fn projected<V>(row: Seq<(String, V)>, columns: Seq<Seq<char>>) -> Seq<(Seq<char>, V)>
    decreases columns.len(),
{
    if columns.len() == 0 {
        Seq::empty()
    } else {
        let p = column_position(row, columns[0]);
        if 0 <= p < row.len() {
            seq![(columns[0], row[p].1)] + projected(row.remove(p), columns.skip(1))
        } else {
            projected(row, columns.skip(1))
        }
    }
}

/// The columns and values of a row.
pub open spec fn row_view<V>(row: Seq<(String, V)>) -> Seq<(Seq<char>, V)> {
    Seq::new(row.len(), |i: int| (row[i].0@, row[i].1))
}

fn find_in_row<V>(row: &Row<V>, name: &str) -> (r: Option<usize>)
    ensures
        match r {
            Some(i) => i < row.len() && column_position(row@, name@) == i,
            None => column_position(row@, name@) == row@.len(),
        },
{
    let mut i: usize = 0;
    proof {
        assert(row@.skip(0) =~= row@);
    }
    while i < row.len()
        invariant
            i <= row.len(),
            column_position(row@, name@) == i + column_position(row@.skip(i as int), name@),
        decreases row.len() - i,
    {
        if text::text_eq(row[i].0.as_str(), name) {
            return Some(i);
        }
        proof {
            assert(row@.skip(i as int).skip(1) =~= row@.skip(i + 1));
        }
        i += 1;
    }
    None
}

/// Takes the columns that are asked for from a row; without any, the row stays as it is.
pub fn project_row<V>(row: Row<V>, columns: &Vec<String>) -> (r: Row<V>)
    ensures
        if columns@.len() == 0 {
            r == row
        } else {
            row_view(r@) == projected(row@, text::texts(columns@))
        },
{
    if columns.len() == 0 {
        return row;
    }
    let ghost all = text::texts(columns@);
    let mut rest = row;
    let mut r: Row<V> = Vec::new();
    let mut i: usize = 0;
    proof {
        assert(all.skip(0) =~= all);
        assert(row_view(r@) + projected(row@, all) =~= projected(row@, all));
    }
    while i < columns.len()
        invariant
            i <= columns.len(),
            all == text::texts(columns@),
            row_view(r@) + projected(rest@, all.skip(i as int)) == projected(row@, all),
        decreases columns.len() - i,
    {
        let ghost before = r@;
        let ghost rest_before = rest@;
        proof {
            assert(all.skip(i as int)[0] == columns@[i as int]@);
            assert(all.skip(i as int).skip(1) =~= all.skip(i + 1));
        }
        match find_in_row(&rest, columns[i].as_str()) {
            Some(p) => {
                let (_, value) = rest.remove(p);
                r.push((columns[i].clone(), value));
                proof {
                    assert(row_view(r@) + projected(rest@, all.skip(i + 1)) =~= row_view(before)
                        + projected(rest_before, all.skip(i as int)));
                }
            },
            None => (),
        }
        i += 1;
    }
    proof {
        assert(projected(rest@, all.skip(i as int)) =~= Seq::<(Seq<char>, V)>::empty());
        assert(row_view(r@) =~= projected(row@, all));
    }
    r
}

/// Whether a scan has returned as many rows as it may. It is asked after each row.
pub fn limit_reached(rows: usize, limit: Option<usize>) -> (r: bool)
    ensures
        r == (limit matches Some(n) && rows >= n),
{
    match limit {
        Some(n) => rows >= n,
        None => false,
    }
}

/// A row as a scan returns it.
pub open spec fn output_row<V>(row: Seq<(String, V)>, columns: Seq<Seq<char>>) -> Seq<(Seq<char>, V)> {
    if columns.len() == 0 {
        row_view(row)
    } else {
        projected(row, columns)
    }
}

/// How many of the rows a scan looks at, and what it returns of them.
pub struct ScanResult<V> {
    pub rows: Seq<Seq<(Seq<char>, V)>>,
    pub finished: bool,
}

/// What a scan has returned after some rows: the selected ones, projected, until the limit is
/// reached or a row has no slot.
pub open spec fn scanned<V>(
    returned: Seq<Seq<(Seq<char>, V)>>,
    input: Seq<(Option<u64>, Row<V>)>,
    selection: ScanSelection,
    columns: Seq<Seq<char>>,
    limit: Option<usize>,
) -> Result<ScanResult<V>, Seq<char>>
    decreases input.len(),
{
    if limit matches Some(n) && returned.len() >= n {
        Ok(ScanResult { rows: returned, finished: true })
    } else if input.len() == 0 {
        Ok(ScanResult { rows: returned, finished: false })
    } else {
        match row_selected(input[0].0, selection) {
            Err(e) => Err(e),
            Ok(false) => scanned(returned, input.skip(1), selection, columns, limit),
            Ok(true) => scanned(
                returned.push(output_row(input[0].1@, columns)),
                input.skip(1),
                selection,
                columns,
                limit,
            ),
        }
    }
}

/// A scan that goes batch by batch returns what a scan of all rows at once returns.
pub proof fn law_scan_goes_batch_by_batch<V>(
    returned: Seq<Seq<(Seq<char>, V)>>,
    first: Seq<(Option<u64>, Row<V>)>,
    second: Seq<(Option<u64>, Row<V>)>,
    selection: ScanSelection,
    columns: Seq<Seq<char>>,
    limit: Option<usize>,
)
    ensures
        scanned(returned, first + second, selection, columns, limit) == (match scanned(
            returned,
            first,
            selection,
            columns,
            limit,
        ) {
            Err(message) => Err::<ScanResult<V>, Seq<char>>(message),
            Ok(result) => if result.finished {
                Ok(result)
            } else {
                scanned(result.rows, second, selection, columns, limit)
            },
        }),
    decreases first.len(),
{
    if first.len() == 0 {
        assert(first + second =~= second);
    } else {
        assert((first + second).skip(1) =~= first.skip(1) + second);
        let more = returned.push(output_row(first[0].1@, columns));
        law_scan_goes_batch_by_batch(returned, first.skip(1), second, selection, columns, limit);
        law_scan_goes_batch_by_batch(more, first.skip(1), second, selection, columns, limit);
    }
}

/// A scan never exceeds its limit, is finished exactly when it reaches it, and keeps the rows that it
/// has returned before.
pub proof fn law_scan_keeps_its_limit<V>(
    returned: Seq<Seq<(Seq<char>, V)>>,
    input: Seq<(Option<u64>, Row<V>)>,
    selection: ScanSelection,
    columns: Seq<Seq<char>>,
    limit: usize,
)
    requires
        returned.len() <= limit,
    ensures
        scanned(returned, input, selection, columns, Some(limit)) matches Ok(result) ==> {
            &&& result.rows.len() <= limit
            &&& result.finished <==> result.rows.len() == limit
            &&& returned.is_prefix_of(result.rows)
        },
    decreases input.len(),
{
    if input.len() > 0 && returned.len() < limit {
        let more = returned.push(output_row(input[0].1@, columns));
        law_scan_keeps_its_limit(returned, input.skip(1), selection, columns, limit);
        law_scan_keeps_its_limit(more, input.skip(1), selection, columns, limit);
        if let Ok(result) = scanned(more, input.skip(1), selection, columns, Some(limit)) {
            assert(more =~= result.rows.take(more.len() as int));
            assert(returned =~= result.rows.take(returned.len() as int));
        }
    }
}

/// Every row that a scan adds is one of the selected rows, projected.
pub proof fn law_scan_returns_selected_rows<V>(
    returned: Seq<Seq<(Seq<char>, V)>>,
    input: Seq<(Option<u64>, Row<V>)>,
    selection: ScanSelection,
    columns: Seq<Seq<char>>,
    limit: Option<usize>,
    k: int,
)
    ensures
        scanned(returned, input, selection, columns, limit) matches Ok(result) ==> (returned.len()
            <= k < result.rows.len() ==> exists|i: int|
            {
                &&& 0 <= i < input.len()
                &&& row_selected((#[trigger] input[i]).0, selection) == Ok::<bool, Seq<char>>(true)
                &&& result.rows[k] == output_row(input[i].1@, columns)
            }),
    decreases input.len(),
{
    if input.len() > 0 {
        let rest = input.skip(1);
        let more = returned.push(output_row(input[0].1@, columns));
        law_scan_returns_selected_rows(returned, rest, selection, columns, limit, k);
        law_scan_returns_selected_rows(more, rest, selection, columns, limit, k);
        lemma_scan_keeps_rows(more, rest, selection, columns, limit);
        if let Ok(result) = scanned(returned, input, selection, columns, limit) {
            if returned.len() <= k < result.rows.len() {
                let selected = row_selected(input[0].0, selection);
                if selected == Ok::<bool, Seq<char>>(true) && k == returned.len() {
                    assert(result.rows[k] == output_row(input[0].1@, columns));
                } else {
                    let j = choose|j: int|
                        {
                            &&& 0 <= j < rest.len()
                            &&& row_selected((#[trigger] rest[j]).0, selection) == Ok::<
                                bool,
                                Seq<char>,
                            >(true)
                            &&& result.rows[k] == output_row(rest[j].1@, columns)
                        };
                    assert(rest[j] == input[j + 1]);
                }
            }
        }
    }
}

/// Whether a scan asks for the rows of a slot: all rows are asked for, whatever their slot, or those
/// with a slot of a range.
pub open spec fn asks_for(selection: ScanSelection, slot: Option<u64>) -> bool {
    &&& selection is SlotRange ==> slot is Some
    &&& selection matches ScanSelection::SlotRange { start_slot, end_slot } ==> {
        &&& start_slot <= slot->0
        &&& slot->0 <= end_slot
    }
}

/// A row is selected exactly where it is asked for, and a row has to have a slot only where a range of
/// slots is asked for.
pub proof fn law_rows_are_selected_as_asked_for(slot: Option<u64>, selection: ScanSelection)
    ensures
        row_selected(slot, selection) is Err <==> selection is SlotRange && slot is None,
        row_selected(slot, selection) is Ok ==> (row_selected(slot, selection)->Ok_0 <==> asks_for(
            selection,
            slot,
        )),
        selection is All ==> row_selected(slot, selection) == Ok::<bool, Seq<char>>(true),
{
}

/// A scan is complete: where it ends without an error and before its limit, the rows that it adds are,
/// in order, one for each row that is asked for.
pub proof fn law_scan_is_complete<V>(
    returned: Seq<Seq<(Seq<char>, V)>>,
    input: Seq<(Option<u64>, Row<V>)>,
    selection: ScanSelection,
    columns: Seq<Seq<char>>,
    limit: Option<usize>,
)
    ensures
        scanned(returned, input, selection, columns, limit) matches Ok(result) ==> (!result.finished
            ==> result.rows == returned + input.filter(
            |row: (Option<u64>, Row<V>)| asks_for(selection, row.0),
        ).map_values(|row: (Option<u64>, Row<V>)| output_row(row.1@, columns))),
    decreases input.len(),
{
    let asked = |row: (Option<u64>, Row<V>)| asks_for(selection, row.0);
    let output = |row: (Option<u64>, Row<V>)| output_row(row.1@, columns);
    if input.len() == 0 {
        reveal(Seq::filter);
        assert(input.filter(asked).map_values(output) =~= Seq::empty());
        assert(returned + Seq::<Seq<(Seq<char>, V)>>::empty() =~= returned);
    } else {
        let rest = input.skip(1);
        let more = returned.push(output_row(input[0].1@, columns));
        law_rows_are_selected_as_asked_for(input[0].0, selection);
        law_scan_is_complete(returned, rest, selection, columns, limit);
        law_scan_is_complete(more, rest, selection, columns, limit);
        lemma_filter_first(input, asked);
        if asked(input[0]) {
            assert(more + rest.filter(asked).map_values(output) =~= returned + (seq![input[0]]
                + rest.filter(asked)).map_values(output));
        }
    }
}

/// The rows that pass a test are the first, where it passes, and those of the others.
proof fn lemma_filter_first<T>(rows: Seq<T>, test: spec_fn(T) -> bool)
    requires
        rows.len() > 0,
    ensures
        rows.filter(test) == (if test(rows[0]) {
            seq![rows[0]] + rows.skip(1).filter(test)
        } else {
            rows.skip(1).filter(test)
        }),
{
    reveal_with_fuel(Seq::filter, 2);
    let head = seq![rows[0]];
    assert(rows =~= head + rows.skip(1));
    Seq::filter_distributes_over_add(head, rows.skip(1), test);
    assert(head.drop_last() =~= Seq::empty());
    assert(head.filter(test) =~= if test(rows[0]) {
        head
    } else {
        Seq::empty()
    });
    assert(Seq::<T>::empty() + rows.skip(1).filter(test) =~= rows.skip(1).filter(test));
}

/// A scan of all rows adds one row for each that it is given, whatever their slots, until the limit is
/// reached, and never fails.
pub proof fn law_scan_of_all_rows_returns_each<V>(
    returned: Seq<Seq<(Seq<char>, V)>>,
    input: Seq<(Option<u64>, Row<V>)>,
    columns: Seq<Seq<char>>,
    limit: Option<usize>,
)
    ensures
        scanned(returned, input, ScanSelection::All, columns, limit) matches Ok(result) && {
            let room = match limit {
                Some(n) => if n > returned.len() {
                    n - returned.len()
                } else {
                    0
                },
                None => input.len() as int,
            };
            let added = if room < input.len() {
                room
            } else {
                input.len() as int
            };
            &&& result.rows.len() == returned.len() + added
            &&& forall|k: int|
                0 <= k < returned.len() ==> #[trigger] result.rows[k] == returned[k]
            &&& forall|k: int|
                0 <= k < added ==> #[trigger] result.rows[returned.len() + k] == output_row(
                    input[k].1@,
                    columns,
                )
            &&& result.finished <==> (limit matches Some(n) && result.rows.len() >= n)
        },
    decreases input.len(),
{
    let stop = limit matches Some(n) && returned.len() >= n;
    if input.len() > 0 && !stop {
        let rest = input.skip(1);
        let more = returned.push(output_row(input[0].1@, columns));
        law_rows_are_selected_as_asked_for(input[0].0, ScanSelection::All);
        law_scan_of_all_rows_returns_each(more, rest, columns, limit);
        let result = scanned(returned, input, ScanSelection::All, columns, limit)->Ok_0;
        assert forall|k: int| 0 <= k < returned.len() implies #[trigger] result.rows[k] == returned[k] by {
            assert(more[k] == returned[k]);
        }
        assert forall|k: int|
            0 <= k < result.rows.len() - returned.len() implies #[trigger] result.rows[returned.len() + k]
            == output_row(input[k].1@, columns) by {
            if k == 0 {
                assert(result.rows[returned.len() as int] == more[returned.len() as int]);
            } else {
                assert(result.rows[more.len() + (k - 1)] == output_row(rest[k - 1].1@, columns));
            }
        }
    }
}

/// A scan fails exactly where it asks for a range of slots and comes, before its limit, to a row
/// without a slot. Without a limit that is where any row has none.
pub proof fn law_scan_fails_without_a_slot<V>(
    returned: Seq<Seq<(Seq<char>, V)>>,
    input: Seq<(Option<u64>, Row<V>)>,
    selection: ScanSelection,
    columns: Seq<Seq<char>>,
)
    ensures
        scanned(returned, input, selection, columns, None) is Err <==> selection is SlotRange && exists|
            i: int,
        |
            0 <= i < input.len() && (#[trigger] input[i]).0 is None,
        scanned(returned, input, selection, columns, None) matches Ok(result) ==> !result.finished,
    decreases input.len(),
{
    if input.len() > 0 {
        let rest = input.skip(1);
        let more = returned.push(output_row(input[0].1@, columns));
        law_rows_are_selected_as_asked_for(input[0].0, selection);
        law_scan_fails_without_a_slot(returned, rest, selection, columns);
        law_scan_fails_without_a_slot(more, rest, selection, columns);
        if exists|i: int| 0 <= i < input.len() && (#[trigger] input[i]).0 is None {
            let i = choose|i: int| 0 <= i < input.len() && (#[trigger] input[i]).0 is None;
            if i > 0 {
                assert(rest[i - 1].0 is None);
            }
        }
        if exists|i: int| 0 <= i < rest.len() && (#[trigger] rest[i]).0 is None {
            let i = choose|i: int| 0 <= i < rest.len() && (#[trigger] rest[i]).0 is None;
            assert(input[i + 1].0 is None);
        }
    }
}

proof fn lemma_scan_keeps_rows<V>(
    returned: Seq<Seq<(Seq<char>, V)>>,
    input: Seq<(Option<u64>, Row<V>)>,
    selection: ScanSelection,
    columns: Seq<Seq<char>>,
    limit: Option<usize>,
)
    ensures
        scanned(returned, input, selection, columns, limit) matches Ok(result) ==> {
            &&& returned.len() <= result.rows.len()
            &&& forall|k: int| 0 <= k < returned.len() ==> #[trigger] result.rows[k] == returned[k]
        },
    decreases input.len(),
{
    if input.len() > 0 {
        let more = returned.push(output_row(input[0].1@, columns));
        lemma_scan_keeps_rows(returned, input.skip(1), selection, columns, limit);
        lemma_scan_keeps_rows(more, input.skip(1), selection, columns, limit);
        if let Ok(result) = scanned(more, input.skip(1), selection, columns, limit) {
            assert forall|k: int| 0 <= k < returned.len() implies #[trigger] result.rows[k]
                == returned[k] by {
                assert(more[k] == returned[k]);
            }
        }
    }
}

/// The rows of a result.
pub open spec fn rows_view<V>(rows: Seq<Row<V>>) -> Seq<Seq<(Seq<char>, V)>> {
    Seq::new(rows.len(), |i: int| row_view(rows[i]@))
}

/// Scans a batch of rows, each with its slot: appends the selected ones, projected, as far as the
/// limit allows, and says whether it is reached.
pub fn scan_rows<V>(
    rows: &mut Vec<Row<V>>,
    input: Vec<(Option<u64>, Row<V>)>,
    options: &ScanOptions,
) -> (r: Result<bool, String>)
    ensures
        match scanned(
            rows_view(old(rows)@),
            input@,
            options.selection,
            text::texts(options.columns@),
            options.limit,
        ) {
            Ok(result) => r == Ok::<bool, String>(result.finished) && rows_view(final(rows)@)
                == result.rows,
            Err(message) => r matches Err(e) && e@ == message,
        },
{
    let ghost all = input@;
    let ghost columns = text::texts(options.columns@);
    let ghost expected = scanned(
        rows_view(rows@),
        input@,
        options.selection,
        columns,
        options.limit,
    );
    let mut queue = input;
    reverse(&mut queue);
    proof {
        assert(queue@.reverse() =~= all);
    }
    loop
        invariant
            columns == text::texts(options.columns@),
            expected == scanned(
                rows_view(old(rows)@),
                input@,
                options.selection,
                text::texts(options.columns@),
                options.limit,
            ),
            expected == scanned(
                rows_view(rows@),
                queue@.reverse(),
                options.selection,
                columns,
                options.limit,
            ),
        decreases queue.len(),
    {
        if limit_reached(rows.len(), options.limit) {
            return Ok(true);
        }
        let ghost waiting = queue@.reverse();
        let ghost before = rows@;
        match queue.pop() {
            None => {
                return Ok(false);
            },
            Some((slot, row)) => {
                proof {
                    assert(waiting[0] == (slot, row));
                    assert(waiting.skip(1) =~= queue@.reverse());
                }
                let selected = match row_matches_selection(slot, options.selection) {
                    Ok(selected) => selected,
                    Err(e) => {
                        return Err(e);
                    },
                };
                if selected {
                    rows.push(project_row(row, &options.columns));
                    proof {
                        assert(rows_view(rows@) =~= rows_view(before).push(
                            output_row(row@, columns),
                        ));
                    }
                }
            },
        }
    }
}

fn reverse<V>(v: &mut Vec<(Option<u64>, Row<V>)>)
    ensures
        final(v)@ == old(v)@.reverse(),
{
    let ghost all = v@;
    let mut turned: Vec<(Option<u64>, Row<V>)> = Vec::new();
    while v.len() > 0
        invariant
            v@.len() + turned@.len() == all.len(),
            v@ == all.take(v@.len() as int),
            forall|k: int| 0 <= k < turned@.len() ==> turned@[k] == all[all.len() - 1 - k],
        decreases v.len(),
    {
        if let Some(row) = v.pop() {
            turned.push(row);
        }
        proof {
            assert(v@ =~= all.take(v@.len() as int));
        }
    }
    v.append(&mut turned);
    proof {
        assert(v@ =~= all.reverse());
    }
}

/// The slot of a row is the number in its cell, whatever the type of the column. A number below zero is
/// refused, and a row without a number has no slot.
pub proof fn law_slot_is_the_number_in_the_cell(a: u64, b: u32, c: i64, d: i32)
    ensures
        cell_slot(SlotCell::Null) == Ok::<Option<u64>, Seq<char>>(None),
        cell_slot(SlotCell::UInt64(a)) matches Ok(Some(slot)) && slot == a,
        cell_slot(SlotCell::UInt32(b)) matches Ok(Some(slot)) && slot == b,
        c >= 0 ==> (cell_slot(SlotCell::Int64(c)) matches Ok(Some(slot)) && slot == c),
        d >= 0 ==> (cell_slot(SlotCell::Int32(d)) matches Ok(Some(slot)) && slot == d),
        c < 0 <==> cell_slot(SlotCell::Int64(c)) is Err,
        d < 0 <==> cell_slot(SlotCell::Int32(d)) is Err,
        cell_slot(SlotCell::Unsupported) is Err,
{
}

/// The slots of some cells are those of all of them that have one, and no other. They cannot be read
/// exactly where one cell cannot.
pub proof fn law_slots_are_those_of_all_cells(cells: Seq<SlotCell>, slot: u64)
    ensures
        cell_slots(cells) is Err <==> exists|i: int|
            0 <= i < cells.len() && cell_slot(#[trigger] cells[i]) is Err,
        cell_slots(cells) matches Ok(found) ==> found.len() <= cells.len() && (found.contains(slot)
            <==> exists|i: int|
            0 <= i < cells.len() && cell_slot(#[trigger] cells[i]) == Ok::<Option<u64>, Seq<char>>(
                Some(slot),
            )),
    decreases cells.len(),
{
    if cells.len() > 0 {
        let rest = cells.drop_last();
        law_slots_are_those_of_all_cells(rest, slot);
        assert(cells[cells.len() - 1] == cells.last());
        assert forall|i: int| 0 <= i < rest.len() implies rest[i] == #[trigger] cells[i] by {}
        if exists|i: int| 0 <= i < rest.len() && cell_slot(#[trigger] rest[i]) is Err {
            let i = choose|i: int| 0 <= i < rest.len() && cell_slot(#[trigger] rest[i]) is Err;
            assert(cell_slot(cells[i]) is Err);
        }
        if exists|i: int| 0 <= i < cells.len() && cell_slot(#[trigger] cells[i]) is Err {
            let i = choose|i: int| 0 <= i < cells.len() && cell_slot(#[trigger] cells[i]) is Err;
            if i < rest.len() {
                assert(cell_slot(rest[i]) is Err);
            }
        }
        if let (Ok(before), Ok(found)) = (cell_slots(rest), cell_slots(cells)) {
            let has = Ok::<Option<u64>, Seq<char>>(Some(slot));
            if before.contains(slot) {
                let i = choose|i: int| 0 <= i < rest.len() && cell_slot(#[trigger] rest[i]) == has;
                assert(cell_slot(cells[i]) == has);
                assert(found[before.index_of(slot)] == slot);
            }
            if cell_slot(cells.last()) == has {
                assert(found[found.len() - 1] == slot);
            }
            if found.contains(slot) && !before.contains(slot) {
                let p = found.index_of(slot);
                if p < before.len() {
                    assert(before[p] == slot);
                }
            }
            if exists|i: int| 0 <= i < cells.len() && cell_slot(#[trigger] cells[i]) == has {
                let i = choose|i: int| 0 <= i < cells.len() && cell_slot(#[trigger] cells[i]) == has;
                if i < rest.len() {
                    assert(cell_slot(rest[i]) == has);
                }
            }
        }
    }
}

/// A scan reads every column that is asked for, in the order in which they are asked for, and the slot
/// where it decides. It reads no other, and all of them where none is asked for.
pub proof fn law_columns_that_decide_are_read(options: ScanOptions)
    ensures
        ({
            let asked = text::texts(options.columns@);
            let read = columns_to_read(options);
            &&& read is None <==> asked.len() == 0
            &&& read matches Some(columns) ==> {
                &&& asked.is_prefix_of(columns)
                &&& options.selection is SlotRange ==> columns.contains("slot"@)
                &&& forall|c: Seq<char>| #[trigger]
                    columns.contains(c) ==> asked.contains(c) || (options.selection is SlotRange && c
                        == "slot"@)
            }
        }),
{
    let asked = text::texts(options.columns@);
    if asked.len() > 0 {
        let columns = columns_to_read(options)->0;
        assert(columns.take(asked.len() as int) =~= asked);
        if options.selection is SlotRange && !asked.contains("slot"@) {
            assert(columns[asked.len() as int] == "slot"@);
            assert forall|c: Seq<char>| #[trigger] columns.contains(c) implies asked.contains(c) || c
                == "slot"@ by {
                let p = columns.index_of(c);
                if p < asked.len() {
                    assert(asked[p] == c);
                }
            }
        }
    }
}

/// The value of a column is found by its name: it is the first of that name, and where the row has none,
/// none is found.
pub proof fn law_column_is_found_by_name<V>(row: Seq<(String, V)>, name: Seq<char>)
    ensures
        ({
            let p = column_position(row, name);
            &&& 0 <= p <= row.len()
            &&& p < row.len() ==> row[p].0@ == name
            &&& forall|k: int| 0 <= k < p ==> (#[trigger] row[k]).0@ != name
        }),
    decreases row.len(),
{
    if row.len() > 0 && row[0].0@ != name {
        let rest = row.skip(1);
        law_column_is_found_by_name(rest, name);
        let p = column_position(row, name);
        if p < row.len() {
            assert(rest[p - 1] == row[p]);
        }
        assert forall|k: int| 0 <= k < p implies (#[trigger] row[k]).0@ != name by {
            if k > 0 {
                assert(rest[k - 1] == row[k]);
            }
        }
    }
}

/// A projected row has only columns that are asked for, in their order, each with a value that the row
/// has under that name.
pub proof fn law_projection_keeps_names_and_values<V>(row: Seq<(String, V)>, columns: Seq<Seq<char>>, k: int)
    requires
        0 <= k < projected(row, columns).len(),
    ensures
        columns.contains(projected(row, columns)[k].0),
        exists|i: int|
            0 <= i < row.len() && (#[trigger] row[i]).0@ == projected(row, columns)[k].0 && row[i].1
                == projected(row, columns)[k].1,
    decreases columns.len(),
{
    let p = column_position(row, columns[0]);
    let out = projected(row, columns);
    let rest = columns.skip(1);
    law_column_is_found_by_name(row, columns[0]);
    if 0 <= p < row.len() {
        if k == 0 {
            assert(row[p].0@ == out[0].0 && row[p].1 == out[0].1);
            assert(columns.contains(columns[0]));
        } else {
            let less = row.remove(p);
            law_projection_keeps_names_and_values(less, rest, k - 1);
            assert(out[k] == projected(less, rest)[k - 1]);
            let i = choose|i: int|
                0 <= i < less.len() && (#[trigger] less[i]).0@ == out[k].0 && less[i].1 == out[k].1;
            let j = if i < p {
                i
            } else {
                i + 1
            };
            assert(row[j] == less[i]);
            let q = rest.index_of(out[k].0);
            assert(columns[q + 1] == out[k].0);
        }
    } else {
        law_projection_keeps_names_and_values(row, rest, k);
        let q = rest.index_of(out[k].0);
        assert(columns[q + 1] == out[k].0);
    }
}

/// Where every column that is asked for is there, none asked for twice, a projected row has exactly these
/// columns, in the order in which they are asked for.
pub proof fn law_projection_has_every_column<V>(row: Seq<(String, V)>, columns: Seq<Seq<char>>)
    requires
        columns.no_duplicates(),
        forall|k: int|
            0 <= k < columns.len() ==> column_position(row, #[trigger] columns[k]) < row.len(),
    ensures
        projected(row, columns).len() == columns.len(),
        forall|k: int| 0 <= k < columns.len() ==> #[trigger] projected(row, columns)[k].0 == columns[k],
    decreases columns.len(),
{
    if columns.len() > 0 {
        let p = column_position(row, columns[0]);
        let rest = columns.skip(1);
        let less = row.remove(p);
        law_column_is_found_by_name(row, columns[0]);
        assert forall|k: int| 0 <= k < rest.len() implies column_position(less, #[trigger] rest[k])
            < less.len() by {
            let name = columns[k + 1];
            assert(rest[k] == name);
            law_column_is_found_by_name(row, name);
            law_column_is_found_by_name(less, name);
            let i = column_position(row, name);
            assert(columns[0] != name);
            assert(i != p);
            let j = if i < p {
                i
            } else {
                i - 1
            };
            assert(less[j] == row[i]);
        }
        law_projection_has_every_column(less, rest);
        assert forall|k: int| 0 <= k < columns.len() implies #[trigger] projected(row, columns)[k].0
            == columns[k] by {
            if k > 0 {
                assert(projected(row, columns)[k] == projected(less, rest)[k - 1]);
                assert(rest[k - 1] == columns[k]);
            }
        }
    }
}

/// What to do is said exactly where a text column holds other bytes.
pub proof fn law_advice_is_given_on_wrong_bytes(context: Seq<char>, detail: Seq<char>)
    ensures
        text_search::starts_with(batch_context(context, detail), context),
        batch_context(context, detail) == context <==> !text_search::contains(detail, "non UTF-8"@)
            && !text_search::contains(detail, "non-UTF8"@),
{
    let advice = "; archive contains a UTF8-typed column with non-UTF8 bytes. Use --columns to read only the fields you need, for example --columns slot,signature"@;
    reveal_strlit("; archive contains a UTF8-typed column with non-UTF8 bytes. Use --columns to read only the fields you need, for example --columns slot,signature");
    text_search::law_parts_of_a_text_are_found(context, advice, context);
    text_search::law_parts_of_a_text_are_found(context, Seq::empty(), context);
    assert(context + Seq::<char>::empty() =~= context);
    assert(advice.len() > 0);
    assert((context + advice).len() > context.len());
}

} // verus!
