//! What is said of operations that took too long or failed on a shard, and what becomes of their
//! queries.
use vstd::prelude::*;

use crate::clickhouse::client::QueryCleanup;
use crate::clickhouse::sharding;
use crate::clickhouse::sharding::{validate_required_columns, DescribeTableRow};
use crate::processing::ProcessingError;
use crate::text;
use crate::time;
use crate::time::Duration;

verus! {

/// What is said of an operation that took too long.
pub open spec fn operation_timeout_text(operation: Seq<char>, timeout: Seq<char>) -> Seq<char> {
    ("ClickHouse operation '"@ + operation + "' timed out after "@ + timeout)
}

/// The error of an operation that took too long, given how its time limit is shown.
pub fn operation_timeout_shown(operation: &str, shown: &str) -> (r: ProcessingError)
    ensures
        r is Timeout,
        r.context() == operation_timeout_text(operation@, shown@),
{
    let message = {
        let mut m = "ClickHouse operation '".to_owned();
        m.append(operation);
        m.append("' timed out after ");
        m.append(shown);
        m
    };
    ProcessingError::timeout_msg(message)
}

/// The error of an operation that took too long.
pub fn operation_timeout(operation: &str, timeout: Duration) -> (r: ProcessingError)
    requires
        timeout.wf(),
    ensures
        r is Timeout,
        r.context() == operation_timeout_text(
            operation@,
            time::debug_text(timeout.secs, timeout.nanos),
        ),
{
    operation_timeout_shown(operation, timeout.debug_string().as_str())
}

/// How a message names a shard.
pub open spec fn shard_name(shard_num: u32, host: Seq<char>, port: u16) -> Seq<char> {
    ("Shard "@ + text::dec(shard_num as nat) + " "@ + host + ":"@ + text::dec(port as nat))
}

fn shard_name_text(shard_num: u32, host: &str, port: u16) -> (r: String)
    ensures
        r@ == shard_name(shard_num, host@, port),
{
    let mut m = "Shard ".to_owned();
    m.append(text::dec_string(shard_num as u64).as_str());
    m.append(" ");
    m.append(host);
    m.append(":");
    m.append(text::dec_string(port as u64).as_str());
    m
}

/// The error of a shard whose table took too long to describe, given how the limit is shown.
pub fn schema_timeout_shown(shard_num: u32, host: &str, port: u16, shown: &str) -> (r: ProcessingError)
    ensures
        r is Timeout,
        r.context() == (shard_name(shard_num, host@, port) + " schema query timed out after "@ + shown@),
{
    let name = shard_name_text(shard_num, host, port);
    let message = {
        let mut m = name.as_str().to_owned();
        m.append(" schema query timed out after ");
        m.append(shown);
        m
    };
    ProcessingError::timeout_msg(message)
}

/// The error of a shard whose table took too long to describe.
pub fn schema_timeout(shard_num: u32, host: &str, port: u16, timeout: Duration) -> (r: ProcessingError)
    requires
        timeout.wf(),
    ensures
        r is Timeout,
        r.context() == (shard_name(shard_num, host@, port) + " schema query timed out after "@ + time::debug_text(timeout.secs, timeout.nanos)),
{
    schema_timeout_shown(shard_num, host, port, timeout.debug_string().as_str())
}

/// The error of a shard whose buckets took too long to learn, given how the limit is shown.
pub fn bucket_discovery_timeout_shown(shard_num: u32, host: &str, port: u16, shown: &str) -> (r:
    ProcessingError)
    ensures
        r is Timeout,
        r.context() == (shard_name(shard_num, host@, port) + " bucket discovery timed out after "@ + shown@),
{
    let name = shard_name_text(shard_num, host, port);
    let message = {
        let mut m = name.as_str().to_owned();
        m.append(" bucket discovery timed out after ");
        m.append(shown);
        m
    };
    ProcessingError::timeout_msg(message)
}

/// The error of a shard whose buckets took too long to learn.
pub fn bucket_discovery_timeout(shard_num: u32, host: &str, port: u16, timeout: Duration) -> (r:
    ProcessingError)
    requires
        timeout.wf(),
    ensures
        r is Timeout,
        r.context() == (shard_name(shard_num, host@, port) + " bucket discovery timed out after "@ + time::debug_text(timeout.secs, timeout.nanos)),
{
    bucket_discovery_timeout_shown(shard_num, host, port, timeout.debug_string().as_str())
}

/// What came of describing a table on a shard.
#[derive(Debug)]
pub enum DescribeOutcome {
    /// No connection to the shard.
    NoHandle,
    /// The query failed.
    QueryFailed,
    /// The columns.
    Rows(Vec<DescribeTableRow>),
}

/// The query that describes a table.
pub fn build_shard_describe_query(table: &str) -> (q: String)
    ensures
        q@ == ("DESCRIBE TABLE "@ + table@),
{
    let mut m = "DESCRIBE TABLE ".to_owned();
    m.append(table);
    m
}

/// The columns of a table on a shard; there has to be one.
pub fn described_on_shard(
    outcome: DescribeOutcome,
    table: &str,
    shard_num: u32,
    host: &str,
    port: u16,
) -> (r: Result<Vec<DescribeTableRow>, ProcessingError>)
    ensures
        match outcome {
            DescribeOutcome::NoHandle => {
                &&& r matches Err(e)
                &&& e is Database
                &&& e.context() == (shard_name(shard_num, host@, port) + " handle error"@)
            },
            DescribeOutcome::QueryFailed => {
                &&& r matches Err(e)
                &&& e is Database
                &&& e.context() == (shard_name(shard_num, host@, port) + " schema query failed"@)
            },
            DescribeOutcome::Rows(rows) => if rows@.len() == 0 {
                &&& r matches Err(e)
                &&& e is Database
                &&& e.context() == (shard_name(shard_num, host@, port) + " returned no columns for "@ + table@)
            } else {
                r == Ok::<Vec<DescribeTableRow>, ProcessingError>(rows)
            },
        },
{
    let name = shard_name_text(shard_num, host, port);
    match outcome {
        DescribeOutcome::NoHandle => {
            let message = {
                let mut m = name.as_str().to_owned();
                m.append(" handle error");
                m
            };
            Err(ProcessingError::database_msg(message))
        },
        DescribeOutcome::QueryFailed => {
            let message = {
                let mut m = name.as_str().to_owned();
                m.append(" schema query failed");
                m
            };
            Err(ProcessingError::database_msg(message))
        },
        DescribeOutcome::Rows(rows) => {
            if rows.len() == 0 {
                let message = {
                    let mut m = name.as_str().to_owned();
                    m.append(" returned no columns for ");
                    m.append(table);
                    m
                };
                return Err(ProcessingError::database_msg(message));
            }
            Ok(rows)
        },
    }
}

/// What becomes of a query on a shard that failed.
#[derive(Debug)]
pub struct FailedShardQuery {
    /// The error that is reported.
    pub error: ProcessingError,
    /// The query that is ended on the shard, by its name.
    pub kill: Option<String>,
}

/// Takes the failure of a native query on a shard, with the reason why it may be gone the next time,
/// if there is one. Such a query may still run: it is ended. One that took too long is reported as
/// that, in place of its error.
pub fn after_shard_query_failure(
    operation: &str,
    timeout: Duration,
    error: ProcessingError,
    reason: Option<&str>,
    cleanup: &mut QueryCleanup,
) -> (r: FailedShardQuery)
    requires
        timeout.wf(),
    ensures
        final(cleanup).query_id is None,
        r.kill == (if reason is Some {
            old(cleanup).query_id
        } else {
            None
        }),
        match reason {
            Some(text) if text@ == "timeout"@ => {
                &&& r.error is Timeout
                &&& r.error.context() == operation_timeout_text(
                    operation@,
                    time::debug_text(timeout.secs, timeout.nanos),
                )
            },
            _ => r.error == error,
        },
{
    match reason {
        Some(text) => {
            let kill = cleanup.take();
            if text::text_eq(text, "timeout") {
                return FailedShardQuery { error: operation_timeout(operation, timeout), kill };
            }
            FailedShardQuery { error, kill }
        },
        None => {
            cleanup.disarm();
            FailedShardQuery { error, kill: None }
        },
    }
}

/// The error of a shard without a free native connection.
pub fn tcp_handle_error(host: &str, port: u16) -> (r: ProcessingError)
    ensures
        r is Database,
        r.context() == ("Shard "@ + host@ + ":"@ + text::dec(port as nat) + " tcp handle error"@),
{
    let message = {
        let mut m = "Shard ".to_owned();
        m.append(host);
        m.append(":");
        m.append(text::dec_string(port as u64).as_str());
        m.append(" tcp handle error");
        m
    };
    ProcessingError::database_msg(message)
}

/// The error of a shard on which a native connection was waited for too long.
pub fn tcp_handle_timeout(host: &str, port: u16, timeout: Duration) -> (r: ProcessingError)
    requires
        timeout.wf(),
    ensures
        r is Timeout,
        r.context() == ("Shard "@ + host@ + ":"@ + text::dec(port as nat) + " tcp handle timed out after "@ + time::debug_text(timeout.secs, timeout.nanos)),
{
    let shown = timeout.debug_string();
    let message = {
        let mut m = "Shard ".to_owned();
        m.append(host);
        m.append(":");
        m.append(text::dec_string(port as u64).as_str());
        m.append(" tcp handle timed out after ");
        m.append(shown.as_str());
        m
    };
    ProcessingError::timeout_msg(message)
}

/// What is wrong with a table on a shard.
pub open spec fn schema_error(
    outcome: DescribeOutcome,
    table: Seq<char>,
    required: Seq<Seq<char>>,
    shard: Seq<char>,
) -> Option<Seq<char>> {
    match outcome {
        DescribeOutcome::NoHandle => Some((shard + " handle error"@)),
        DescribeOutcome::QueryFailed => Some((shard + " schema query failed"@)),
        DescribeOutcome::Rows(rows) => {
            let missing = sharding::missing_columns(rows@, required);
            if rows@.len() == 0 {
                Some((shard + " returned no columns for "@ + table))
            } else if missing.len() > 0 {
                Some((shard + " table "@ + table + " missing columns: "@ + text::join(missing, ", "@)))
            } else {
                None
            }
        },
    }
}

/// Checks the columns of a table on a shard.
pub fn shard_schema_result(
    outcome: DescribeOutcome,
    table: &str,
    required_columns: &[&str],
    shard_num: u32,
    host: &str,
    port: u16,
) -> (r: Result<(), ProcessingError>)
    ensures
        match schema_error(
            outcome,
            table@,
            sharding::literal_texts(required_columns@),
            shard_name(shard_num, host@, port),
        ) {
            Some(message) => r matches Err(e) && e is Database && e.context() == message,
            None => r is Ok,
        },
{
    match described_on_shard(outcome, table, shard_num, host, port) {
        Ok(rows) => {
            let r = validate_required_columns(
                rows.as_slice(),
                table,
                required_columns,
                shard_num,
                host,
                port,
            );
            proof {
                let missing = sharding::missing_columns(
                    rows@,
                    sharding::literal_texts(required_columns@),
                );
                if r is Err {
                    assert(r->Err_0.context() =~= (shard_name(shard_num, host@, port) + " table "@ + table@ + " missing columns: "@ + text::join(missing, ", "@)));
                }
            }
            r
        },
        Err(e) => Err(e),
    }
}

/// A table of a shard is accepted exactly where the shard describes it with every required column.
pub proof fn law_table_needs_every_required_column(
    outcome: DescribeOutcome,
    table: Seq<char>,
    required: Seq<Seq<char>>,
    shard: Seq<char>,
)
    ensures
        schema_error(outcome, table, required, shard) is None <==> (outcome matches DescribeOutcome::Rows(
            rows,
        ) && rows@.len() > 0 && sharding::missing_columns(rows@, required).len() == 0),
{
}

} // verus!
