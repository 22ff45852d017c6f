//! The database client: its configuration, its limits and its choice of tables.
use vstd::prelude::*;

use crate::clickhouse::sharding;
use crate::clickhouse::sharding::{
    derive_local_table_name, escape_clickhouse_string, RoutingPolicy, RoutingScope,
    RoutingTransport, ShardRoutingConfig, ShardTopology,
};
use crate::clickhouse::sql;
use crate::clickhouse::urls::TcpPoolSizing;
use crate::hashing;
use crate::lists;
use crate::processing::ProcessingError;
use crate::text;
use crate::text_search;
use crate::time::Duration;

verus! {

/// The least time that a shard query leaves for another attempt, in milliseconds.
pub const SHARD_TCP_TIMEOUT_RESERVE_MIN_MS: u128 = 500;

/// The most time that a shard query leaves for another attempt, in milliseconds.
pub const SHARD_TCP_TIMEOUT_RESERVE_MAX_MS: u128 = 5_000;

/// The part of the time that a shard query leaves for another attempt.
pub const SHARD_TCP_TIMEOUT_RESERVE_DIVISOR: u128 = 4;

/// The least time for a shard query, in milliseconds.
pub const SHARD_TCP_TIMEOUT_MIN_MS: u128 = 1;

/// The number of buckets that is taken for granted until tables are read.
pub const DEFAULT_BUCKET_MODULUS: u64 = 32;

/// The milliseconds of a shard query that are left for another attempt.
pub open spec fn shard_reserve_ms(timeout_ms: int) -> int {
    if timeout_ms <= 2 * SHARD_TCP_TIMEOUT_RESERVE_MIN_MS {
        timeout_ms / 2
    } else if timeout_ms / 4 < SHARD_TCP_TIMEOUT_RESERVE_MIN_MS {
        SHARD_TCP_TIMEOUT_RESERVE_MIN_MS as int
    } else if timeout_ms / 4 > SHARD_TCP_TIMEOUT_RESERVE_MAX_MS {
        SHARD_TCP_TIMEOUT_RESERVE_MAX_MS as int
    } else {
        timeout_ms / 4
    }
}

/// The time for a shard query within the time of a whole request.
pub open spec fn shard_timeout(query_timeout: Duration) -> Duration {
    let timeout_ms = query_timeout.millis();
    let rest = timeout_ms - shard_reserve_ms(timeout_ms);
    if timeout_ms <= SHARD_TCP_TIMEOUT_MIN_MS {
        query_timeout
    } else if rest > u64::MAX {
        Duration::of_millis(u64::MAX)
    } else {
        Duration::of_millis(rest as u64)
    }
}

/// Decides on the time for a shard query within the time of a whole request.
pub fn shard_tcp_query_timeout_for(query_timeout: Duration) -> (r: Duration)
    ensures
        r == shard_timeout(query_timeout),
{
    let timeout_ms: u128 = query_timeout.as_millis();
    if timeout_ms <= SHARD_TCP_TIMEOUT_MIN_MS {
        return query_timeout;
    }
    let reserve_ms: u128 = if timeout_ms <= SHARD_TCP_TIMEOUT_RESERVE_MIN_MS * 2 {
        timeout_ms / 2
    } else {
        let part: u128 = timeout_ms / SHARD_TCP_TIMEOUT_RESERVE_DIVISOR;
        if part < SHARD_TCP_TIMEOUT_RESERVE_MIN_MS {
            SHARD_TCP_TIMEOUT_RESERVE_MIN_MS
        } else if part > SHARD_TCP_TIMEOUT_RESERVE_MAX_MS {
            SHARD_TCP_TIMEOUT_RESERVE_MAX_MS
        } else {
            part
        }
    };
    let rest: u128 = timeout_ms - reserve_ms;
    if rest > u64::MAX as u128 {
        Duration::from_millis(u64::MAX)
    } else {
        Duration::from_millis(rest as u64)
    }
}

/// A shard query has at least a millisecond where the request has one, and where the request has
/// more, some of its time is left for another attempt, up to five seconds of a request of ordinary
/// length.
pub proof fn law_shard_timeout_leaves_room(query_timeout: Duration)
    requires
        query_timeout.wf(),
        query_timeout.millis() > 1,
    ensures
        1 <= shard_timeout(query_timeout).millis() < query_timeout.millis(),
        query_timeout.millis() <= u64::MAX ==> query_timeout.millis() - shard_timeout(
            query_timeout,
        ).millis() <= SHARD_TCP_TIMEOUT_RESERVE_MAX_MS,
{
}

/// The statement that stops a query on one node or on a cluster.
pub open spec fn kill_query_text(cluster: Option<Seq<char>>, query_id: Seq<char>) -> Seq<char> {
    let id = sharding::escaped(query_id);
    let predicate = ("(query_id = '"@ + id + "' OR initial_query_id = '"@ + id + "')"@);
    match cluster {
        Some(c) => ("KILL QUERY ON CLUSTER '"@ + sharding::escaped(c) + "' WHERE "@ + predicate + " ASYNC"@),
        None => ("KILL QUERY WHERE "@ + predicate + " ASYNC"@),
    }
}

/// Builds the statement that stops a query on one node or on a cluster.
pub fn kill_query_sql(cluster: Option<&str>, query_id: &str) -> (r: String)
    ensures
        r@ == kill_query_text(
            (match cluster {
                Some(c) => Some(c@),
                None => None,
            }),
            query_id@,
        ),
{
    let id = escape_clickhouse_string(query_id);
    let predicate = {
        let mut m = "(query_id = '".to_owned();
        m.append(id.as_str());
        m.append("' OR initial_query_id = '");
        m.append(id.as_str());
        m.append("')");
        m
    };
    match cluster {
        Some(c) => {
            let mut m = "KILL QUERY ON CLUSTER '".to_owned();
            m.append(escape_clickhouse_string(c).as_str());
            m.append("' WHERE ");
            m.append(predicate.as_str());
            m.append(" ASYNC");
            m
        },
        None => {
            let mut m = "KILL QUERY WHERE ".to_owned();
            m.append(predicate.as_str());
            m.append(" ASYNC");
            m
        },
    }
}

/// Builds the statement that stops a query on the shard that runs it.
pub fn kill_shard_query_sql(query_id: &str) -> (r: String)
    ensures
        r@ == ("KILL QUERY WHERE query_id = '"@ + sharding::escaped(query_id@) + "' ASYNC"@),
{
    let mut m = "KILL QUERY WHERE query_id = '".to_owned();
    m.append(escape_clickhouse_string(query_id).as_str());
    m.append("' ASYNC");
    m
}

/// The time for stopping a query: that of the query, two seconds at most.
pub fn cleanup_timeout(query_timeout: Duration) -> (r: Duration)
    ensures
        r == (if (Duration { secs: 2, nanos: 0 }).shorter(query_timeout) {
            Duration { secs: 2, nanos: 0 }
        } else {
            query_timeout
        }),
{
    query_timeout.min(Duration::from_secs(2))
}

/// A running query that is to be stopped unless it ends by itself.
#[derive(Debug)]
pub struct QueryCleanup {
    pub query_id: Option<String>,
}

impl QueryCleanup {
    /// A query that is running.
    pub fn armed(query_id: String) -> (r: QueryCleanup)
        ensures
            r.query_id == Some(query_id),
    {
        QueryCleanup { query_id: Some(query_id) }
    }

    /// The query has ended by itself.
    pub fn disarm(&mut self)
        ensures
            final(self).query_id is None,
    {
        self.query_id = None;
    }

    /// The query to stop, where there is one. It is given out once.
    pub fn take(&mut self) -> (r: Option<String>)
        ensures
            r == old(self).query_id,
            final(self).query_id is None,
    {
        self.query_id.take()
    }
}

/// The database and the name of a table.
pub open spec fn table_reference(default_database: Seq<char>, table: Seq<char>) -> (Seq<char>, Seq<
    char,
>) {
    let p = text_search::last_position(table, '.');
    if p > 0 && p + 1 < table.len() {
        (
            text_search::trim_char(table.take(p), '`'),
            text_search::trim_char(table.skip(p + 1), '`'),
        )
    } else {
        (default_database, text_search::trim_char(table, '`'))
    }
}

/// Splits the name of a table into its database and the rest.
pub fn split_table_reference(default_database: &str, table: &str) -> (r: (String, String))
    ensures
        (r.0@, r.1@) == table_reference(default_database@, table@),
{
    proof {
        text_search::lemma_last_position(table@, '.');
    }
    if let Some((database, name)) = text_search::rsplit_once_text(table, '.') {
        if !database.as_str().is_empty() && !name.as_str().is_empty() {
            return (
                text_search::trim_char_text(database.as_str(), '`'),
                text_search::trim_char_text(name.as_str(), '`'),
            );
        }
    }
    (default_database.to_owned(), text_search::trim_char_text(table, '`'))
}

/// A table definition without white space and backquotes, in lower case.
pub open spec fn normal_ddl(value: Seq<char>) -> Seq<char> {
    text_search::lower(text_search::replace_char(text_search::without_ascii_white(value), '`', Seq::empty()))
}

/// Drops the white space and the backquotes of a table definition, and its capitals.
pub fn normalize_clickhouse_ddl(value: &str) -> (r: String)
    ensures
        r@ == normal_ddl(value@),
{
    let compact = text_search::drop_ascii_white(value);
    let nothing = String::new();
    let bare = text_search::replace_char_text(compact.as_str(), '`', nothing.as_str());
    text_search::lower_text(bare.as_str())
}

/// Whether a definition is that of a distributed table over a local one, by the hash of the
/// address.
pub open spec fn distributes_by_address(
    default_database: Seq<char>,
    create_table_query: Seq<char>,
    local_table: Seq<char>,
) -> bool {
    let ddl = normal_ddl(create_table_query);
    let (database, table) = table_reference(default_database, local_table);
    let suffix = (",'"@ + text_search::lower(database) + "','"@ + text_search::lower(table) + "',cityhash64(address))as"@);
    text_search::contains(ddl, "engine=distributed("@) && text_search::contains(ddl, suffix)
}

/// Decides whether a definition is that of a distributed table over a local one, by the hash of
/// the address.
pub fn materialized_view_uses_distributed_engine_for_local_table_by_address(
    default_database: &str,
    create_table_query: &str,
    local_table: &str,
) -> (r: bool)
    ensures
        r == distributes_by_address(default_database@, create_table_query@, local_table@),
{
    let ddl = normalize_clickhouse_ddl(create_table_query);
    if !text_search::contains_text(ddl.as_str(), "engine=distributed(") {
        return false;
    }
    let (database, table) = split_table_reference(default_database, local_table);
    let suffix = {
        let mut m = ",'".to_owned();
        m.append(text_search::lower_text(database.as_str()).as_str());
        m.append("','");
        m.append(text_search::lower_text(table.as_str()).as_str());
        m.append("',cityhash64(address))as");
        m
    };
    text_search::contains_text(ddl.as_str(), suffix.as_str())
}

/// What is wrong with the layout of the address history for queries to shards.
pub open spec fn layout_error(
    default_database: Seq<char>,
    gsfa_table: Seq<char>,
    gsfa_local_table: Seq<char>,
    gsfa_engine: Seq<char>,
    gsfa_create_table_query: Seq<char>,
) -> Option<Seq<char>> {
    if text_search::lower(gsfa_engine) != text_search::lower("materializedview"@) {
        Some(("incompatible GSFA shard-direct layout: configured GSFA table '"@ + gsfa_table + "' must itself be a materialized view with ENGINE = Distributed(..., '"@ + gsfa_local_table + "', cityHash64(address))"@))
    } else if !distributes_by_address(default_database, gsfa_create_table_query, gsfa_local_table) {
        Some(("incompatible GSFA shard-direct layout: configured GSFA table '"@ + gsfa_table + "' must itself be a materialized view with ENGINE = Distributed(..., '"@ + gsfa_local_table + "', cityHash64(address)); legacy split layouts with a separate 'gsfa_mv' object are not supported in shard-direct mode"@))
    } else {
        None
    }
}

/// Checks the layout of the address history for queries to shards.
pub fn validate_gsfa_shard_layout_query(
    default_database: &str,
    gsfa_table: &str,
    gsfa_local_table: &str,
    gsfa_engine: &str,
    gsfa_create_table_query: &str,
) -> (r: Result<(), ProcessingError>)
    ensures
        match layout_error(
            default_database@,
            gsfa_table@,
            gsfa_local_table@,
            gsfa_engine@,
            gsfa_create_table_query@,
        ) {
            Some(message) => r matches Err(e) && e is Database && e.context() == message,
            None => r is Ok,
        },
{
    if !text_search::eq_ignore_case(gsfa_engine, "materializedview") {
        let message = {
            let mut m = "incompatible GSFA shard-direct layout: configured GSFA table '".to_owned();
            m.append(gsfa_table);
            m.append("' must itself be a materialized view with ENGINE = Distributed(..., '");
            m.append(gsfa_local_table);
            m.append("', cityHash64(address))");
            m
        };
        return Err(ProcessingError::database_msg(message));
    }
    if !materialized_view_uses_distributed_engine_for_local_table_by_address(
        default_database,
        gsfa_create_table_query,
        gsfa_local_table,
    ) {
        let message = {
            let mut m = "incompatible GSFA shard-direct layout: configured GSFA table '".to_owned();
            m.append(gsfa_table);
            m.append("' must itself be a materialized view with ENGINE = Distributed(..., '");
            m.append(gsfa_local_table);
            m.append("', cityHash64(address)); legacy split layouts with a separate 'gsfa_mv' object are not supported in shard-direct mode");
            m
        };
        return Err(ProcessingError::database_msg(message));
    }
    Ok(())
}

/// How far the tables are checked when the service starts.
#[derive(Clone, Copy, Debug, PartialEq, Eq, Structural)]
pub enum ClickHouseStartupTableCheck {
    Count,
    Exists,
}

/// The query that checks a table when the service starts.
pub open spec fn table_check_query(mode: ClickHouseStartupTableCheck, table: Seq<char>) -> Seq<char> {
    match mode {
        ClickHouseStartupTableCheck::Count => ("SELECT COUNT(*) FROM "@ + table),
        ClickHouseStartupTableCheck::Exists => ("SELECT count() FROM "@ + table + " WHERE 0"@),
    }
}

/// Builds the query that checks a table when the service starts.
pub fn build_table_check_query(mode: ClickHouseStartupTableCheck, table: &str) -> (q: String)
    ensures
        q@ == table_check_query(mode, table@),
{
    match mode {
        ClickHouseStartupTableCheck::Count => {
            let mut m = "SELECT COUNT(*) FROM ".to_owned();
            m.append(table);
            m
        },
        ClickHouseStartupTableCheck::Exists => {
            let mut m = "SELECT count() FROM ".to_owned();
            m.append(table);
            m.append(" WHERE 0");
            m
        },
    }
}

/// The query for the columns of a table.
pub open spec fn describe_query(default_database: Seq<char>, table: Seq<char>) -> Seq<char> {
    let (database, name) = table_reference(default_database, table);
    ("SELECT name, default_kind AS default_type, default_expression FROM system.columns WHERE database = '"@ + sharding::escaped(database) + "' AND table = '"@ + sharding::escaped(name) + "' ORDER BY position"@)
}

/// Builds the query for the columns of a table.
pub fn build_describe_table_query(default_database: &str, table: &str) -> (q: String)
    ensures
        q@ == describe_query(default_database@, table@),
{
    let (database, name) = split_table_reference(default_database, table);
    let mut m = "SELECT name, default_kind AS default_type, default_expression FROM system.columns WHERE database = '".to_owned();
    m.append(escape_clickhouse_string(database.as_str()).as_str());
    m.append("' AND table = '");
    m.append(escape_clickhouse_string(name.as_str()).as_str());
    m.append("' ORDER BY position");
    m
}

/// The query for the definition of a table.
pub open spec fn definition_query(default_database: Seq<char>, table: Seq<char>) -> Seq<char> {
    let (database, name) = table_reference(default_database, table);
    ("SELECT engine, create_table_query FROM system.tables WHERE database = '"@ + sharding::escaped(database) + "' AND name = '"@ + sharding::escaped(name) + "' LIMIT 1"@)
}

/// Builds the query for the definition of a table.
pub fn build_table_definition_query(default_database: &str, table: &str) -> (q: String)
    ensures
        q@ == definition_query(default_database@, table@),
{
    let (database, name) = split_table_reference(default_database, table);
    let mut m = "SELECT engine, create_table_query FROM system.tables WHERE database = '".to_owned();
    m.append(escape_clickhouse_string(database.as_str()).as_str());
    m.append("' AND name = '");
    m.append(escape_clickhouse_string(name.as_str()).as_str());
    m.append("' LIMIT 1");
    m
}

/// A shard that could not be reached, as text.
pub open spec fn access_failure(failure: (String, u16, String)) -> Seq<char> {
    (failure.0@ + ":"@ + text::dec(failure.1 as nat) + " ("@ + failure.2@ + ")"@)
}

/// The first shards that could not be reached, as texts.
pub open spec fn access_failures(failures: Seq<(String, u16, String)>) -> Seq<Seq<char>> {
    Seq::new(
        if failures.len() < 3 {
            failures.len()
        } else {
            3
        },
        |i: int| access_failure(failures[i]),
    )
}

/// Decides on the shards that could not be reached: none may be missing.
pub fn tcp_access_result(failures: &Vec<(String, u16, String)>, shard_count: usize) -> (r: Result<
    (),
    ProcessingError,
>)
    ensures
        match r {
            Ok(()) => failures@.len() == 0,
            Err(e) => {
                &&& failures@.len() > 0
                &&& e is Database
                &&& e.context() == ("ClickHouse TCP access check failed for "@ + text::dec(failures@.len()) + " of "@ + text::dec(shard_count as nat) + " shards: "@ + text::join(access_failures(failures@), ", "@))
            },
        },
{
    if failures.len() == 0 {
        return Ok(());
    }
    let mut sample: Vec<String> = Vec::new();
    let mut i: usize = 0;
    while i < failures.len() && i < 3
        invariant
            i <= failures.len(),
            i <= 3,
            text::texts(sample@) == access_failures(failures@).take(i as int),
        decreases failures.len() - i,
    {
        let failure = &failures[i];
        let line = {
            let mut m = failure.0.as_str().to_owned();
            m.append(":");
            m.append(text::dec_string(failure.1 as u64).as_str());
            m.append(" (");
            m.append(failure.2.as_str());
            m.append(")");
            m
        };
        text::push_text(&mut sample, line);
        i += 1;
        proof {
            let all = access_failures(failures@);
            assert(all.take(i as int) =~= all.take(i - 1).push(all[i - 1]));
        }
    }
    proof {
        let all = access_failures(failures@);
        assert(all.take(all.len() as int) =~= all);
    }
    let names = text::join_texts(&sample, ", ");
    let message = {
        let mut m = "ClickHouse TCP access check failed for ".to_owned();
        m.append(text::dec_string(failures.len() as u64).as_str());
        m.append(" of ");
        m.append(text::dec_string(shard_count as u64).as_str());
        m.append(" shards: ");
        m.append(names.as_str());
        m
    };
    Err(ProcessingError::database_msg(message))
}

/// The numbers of buckets of the tables.
#[derive(Clone, Copy, Debug, PartialEq, Eq, Structural)]
pub struct BucketModuli {
    pub gsfa: u64,
    pub gsfa_hot: u64,
    pub signatures: u64,
    pub token_owner_activity: u64,
}

impl BucketModuli {
    /// Every table has a bucket.
    pub open spec fn wf(self) -> bool {
        self.gsfa > 0 && self.gsfa_hot > 0 && self.signatures > 0 && self.token_owner_activity > 0
    }
}

impl Default for BucketModuli {
    fn default() -> (r: BucketModuli)
        ensures
            r == (BucketModuli {
                gsfa: DEFAULT_BUCKET_MODULUS,
                gsfa_hot: DEFAULT_BUCKET_MODULUS,
                signatures: DEFAULT_BUCKET_MODULUS,
                token_owner_activity: DEFAULT_BUCKET_MODULUS,
            }),
            r.wf(),
    {
        BucketModuli {
            gsfa: DEFAULT_BUCKET_MODULUS,
            gsfa_hot: DEFAULT_BUCKET_MODULUS,
            signatures: DEFAULT_BUCKET_MODULUS,
            token_owner_activity: DEFAULT_BUCKET_MODULUS,
        }
    }
}

/// How the database is to cache the results of queries.
#[derive(Clone, Copy, Debug, PartialEq, Eq, Structural)]
pub struct QueryCacheConfig {
    pub enabled: bool,
    pub ttl_secs: u64,
}

impl Default for QueryCacheConfig {
    fn default() -> (r: QueryCacheConfig)
        ensures
            r == (QueryCacheConfig { enabled: false, ttl_secs: 0 }),
    {
        QueryCacheConfig { enabled: false, ttl_secs: 0 }
    }
}

/// How the client is to work.
#[derive(Debug)]
pub struct ClickHouseClientOptions {
    pub routing_policy: RoutingPolicy,
    pub shard_routing: Option<ShardRoutingConfig>,
    pub gsfa_hot_addresses: Vec<String>,
    pub gsfa_hot_table: String,
    pub gsfa_hot_local_table: String,
    pub query_timeout: Duration,
    pub tcp_access_check_timeout: Duration,
    pub query_cache: QueryCacheConfig,
    pub fanout_concurrency: usize,
    pub http_concurrency: usize,
    pub http_connect_timeout: Duration,
    pub tcp_pool_min: usize,
    pub tcp_pool_max: usize,
    pub in_clause_chunk: usize,
    pub startup_table_check: ClickHouseStartupTableCheck,
}

/// A number, and one in place of zero.
pub open spec fn at_least_one(n: usize) -> usize {
    if n == 0 {
        1
    } else {
        n
    }
}

fn at_least(n: usize) -> (r: usize)
    ensures
        r == at_least_one(n),
{
    if n == 0 {
        1
    } else {
        n
    }
}

impl ClickHouseClientOptions {
    /// There is room for work, and no more connections are held open at least than at most.
    pub open spec fn wf(self) -> bool {
        &&& self.fanout_concurrency > 0
        &&& self.http_concurrency > 0
        &&& self.tcp_pool_max > 0
        &&& self.tcp_pool_min <= self.tcp_pool_max
        &&& self.in_clause_chunk > 0
    }

    /// Options with the usual limits.
    pub fn new(
        routing_policy: RoutingPolicy,
        shard_routing: Option<ShardRoutingConfig>,
        gsfa_hot_addresses: Vec<String>,
        gsfa_hot_table: String,
        gsfa_hot_local_table: String,
    ) -> (r: ClickHouseClientOptions)
        ensures
            r.wf(),
            r == (ClickHouseClientOptions {
                routing_policy,
                shard_routing,
                gsfa_hot_addresses,
                gsfa_hot_table,
                gsfa_hot_local_table,
                query_timeout: Duration { secs: 8, nanos: 0 },
                tcp_access_check_timeout: Duration { secs: 2, nanos: 0 },
                query_cache: QueryCacheConfig { enabled: false, ttl_secs: 0 },
                fanout_concurrency: 8,
                http_concurrency: 512,
                http_connect_timeout: Duration { secs: 2, nanos: 0 },
                tcp_pool_min: 10,
                tcp_pool_max: 20,
                in_clause_chunk: 512,
                startup_table_check: ClickHouseStartupTableCheck::Exists,
            }),
    {
        ClickHouseClientOptions {
            routing_policy,
            shard_routing,
            gsfa_hot_addresses,
            gsfa_hot_table,
            gsfa_hot_local_table,
            query_timeout: Duration::from_millis(8_000),
            tcp_access_check_timeout: Duration::from_secs(2),
            query_cache: QueryCacheConfig::default(),
            fanout_concurrency: 8,
            http_concurrency: 512,
            http_connect_timeout: Duration::from_secs(2),
            tcp_pool_min: 10,
            tcp_pool_max: 20,
            in_clause_chunk: 512,
            startup_table_check: ClickHouseStartupTableCheck::Exists,
        }
    }

    /// With another time for queries.
    pub fn with_query_timeout(self, timeout: Duration) -> (r: Self)
        ensures
            r == (ClickHouseClientOptions { query_timeout: timeout, ..self }),
    {
        let mut options = self;
        options.query_timeout = timeout;
        options
    }

    /// With another time for the check of native access.
    pub fn with_tcp_access_check_timeout(self, timeout: Duration) -> (r: Self)
        ensures
            r == (ClickHouseClientOptions { tcp_access_check_timeout: timeout, ..self }),
    {
        let mut options = self;
        options.tcp_access_check_timeout = timeout;
        options
    }

    /// With another way of caching results.
    pub fn with_query_cache_config(self, query_cache: QueryCacheConfig) -> (r: Self)
        ensures
            r == (ClickHouseClientOptions { query_cache, ..self }),
    {
        let mut options = self;
        options.query_cache = query_cache;
        options
    }

    /// With another number of shards asked at once, one at least.
    pub fn with_fanout_concurrency(self, concurrency: usize) -> (r: Self)
        ensures
            r == (ClickHouseClientOptions { fanout_concurrency: at_least_one(concurrency), ..self }),
            self.wf() ==> r.wf(),
    {
        let mut options = self;
        options.fanout_concurrency = at_least(concurrency);
        options
    }

    /// With another number of HTTP queries at once, one at least.
    pub fn with_http_concurrency(self, concurrency: usize) -> (r: Self)
        ensures
            r == (ClickHouseClientOptions { http_concurrency: at_least_one(concurrency), ..self }),
            self.wf() ==> r.wf(),
    {
        let mut options = self;
        options.http_concurrency = at_least(concurrency);
        options
    }

    /// With another time for connecting.
    pub fn with_http_connect_timeout(self, timeout: Duration) -> (r: Self)
        ensures
            r == (ClickHouseClientOptions { http_connect_timeout: timeout, ..self }),
    {
        let mut options = self;
        options.http_connect_timeout = timeout;
        options
    }

    /// With other numbers of native connections: one at most at least, and no more at least than at
    /// most.
    pub fn with_tcp_pool_sizing(self, pool_min: usize, pool_max: usize) -> (r: Self)
        ensures
            r == (ClickHouseClientOptions {
                tcp_pool_max: at_least_one(pool_max),
                tcp_pool_min: if pool_min < at_least_one(pool_max) {
                    pool_min
                } else {
                    at_least_one(pool_max)
                },
                ..self
            }),
            self.wf() ==> r.wf(),
    {
        let mut options = self;
        let sizing = (TcpPoolSizing { min: pool_min, max: pool_max }).bounded();
        options.tcp_pool_max = sizing.max;
        options.tcp_pool_min = sizing.min;
        options
    }

    /// With another size of the chunks of lists in queries, one at least.
    pub fn with_in_clause_chunk(self, chunk: usize) -> (r: Self)
        ensures
            r == (ClickHouseClientOptions { in_clause_chunk: at_least_one(chunk), ..self }),
            self.wf() ==> r.wf(),
    {
        let mut options = self;
        options.in_clause_chunk = at_least(chunk);
        options
    }

    /// With another check of the tables when the service starts.
    pub fn with_startup_table_check(self, mode: ClickHouseStartupTableCheck) -> (r: Self)
        ensures
            r == (ClickHouseClientOptions { startup_table_check: mode, ..self }),
    {
        let mut options = self;
        options.startup_table_check = mode;
        options
    }
}

/// What the environment says of the tables.
#[derive(Debug)]
pub struct ClientEnvironment {
    pub transaction_table: Option<String>,
    pub signature_table: Option<String>,
    pub blocks_metadata_table: Option<String>,
    pub gsfa_table: Option<String>,
    pub signature_statuses_table: Option<String>,
    pub token_owner_activity_table: Option<String>,
    pub disable_query_settings: bool,
}

/// Where the address history is read on shards.
#[derive(Debug)]
pub struct GsfaShardRouter {
    pub local_table: String,
    pub query_timeout: Duration,
}

/// The client, without its connections.
pub struct ClickHouseClient {
    pub url: String,
    pub database: String,
    pub username: String,
    pub password: String,
    pub transaction_table: String,
    pub blocks_metadata_table: String,
    pub gsfa_table: String,
    pub gsfa_hot_table: String,
    pub gsfa_hot_local_table: String,
    pub gsfa_hot_addresses: Vec<String>,
    pub gsfa_hot_pubkeys: Vec<[u8; 32]>,
    pub signature_statuses_table: String,
    pub token_owner_activity_table: String,
    pub signatures_local_table: Option<String>,
    pub token_owner_activity_local_table: Option<String>,
    pub transactions_local_table: Option<String>,
    pub blocks_metadata_local_table: Option<String>,
    pub token_owner_activity_available: bool,
    pub bucket_moduli: BucketModuli,
    pub allow_query_settings: bool,
    pub query_cache: QueryCacheConfig,
    pub gsfa_router: Option<GsfaShardRouter>,
    pub shard_topology: Option<ShardTopology>,
    /// The shards that were found, until native access to them is given.
    pub found_topology: Option<ShardTopology>,
    pub shard_routing: Option<ShardRoutingConfig>,
    pub routing_policy: RoutingPolicy,
    pub query_timeout: Duration,
    pub tcp_access_check_timeout: Duration,
    pub http_connect_timeout: Duration,
    pub fanout_concurrency: usize,
    pub http_concurrency: usize,
    pub tcp_pool_min: usize,
    pub tcp_pool_max: usize,
    pub in_clause_chunk: usize,
    pub startup_table_check: ClickHouseStartupTableCheck,
}

/// A text that may not be given, and another in its place.
pub open spec fn text_or(value: Option<String>, otherwise: Seq<char>) -> Seq<char> {
    match value {
        Some(v) => v@,
        None => otherwise,
    }
}

fn string_or(value: Option<String>, otherwise: &str) -> (r: String)
    ensures
        r@ == text_or(value, otherwise@),
{
    match value {
        Some(v) => v,
        None => otherwise.to_owned(),
    }
}

/// The local table that is configured, or else the one that the distributed table suggests.
pub open spec fn chosen_local_table(configured: Option<Seq<char>>, distributed: Seq<char>) -> Option<
    Seq<char>,
> {
    match configured {
        Some(table) => Some(table),
        None => sharding::local_table(distributed, None),
    }
}

fn choose_local_table(configured: &Option<String>, distributed: &str) -> (r: Option<String>)
    ensures
        sharding::opt_text(r) == chosen_local_table(sharding::opt_text(*configured), distributed@),
{
    match configured {
        Some(table) => Some(table.clone()),
        None => derive_local_table_name(distributed, None),
    }
}

/// A routing configuration as far as its tables go.
pub open spec fn configured_table(
    routing: Option<ShardRoutingConfig>,
    pick: spec_fn(ShardRoutingConfig) -> Option<String>,
) -> Option<Seq<char>> {
    match routing {
        Some(config) => sharding::opt_text(pick(config)),
        None => None,
    }
}

/// Whether the routing keeps its cluster, its topology and its port, and has the local tables of
/// the client.
pub open spec fn routing_completed(
    before: Option<ShardRoutingConfig>,
    after: Option<ShardRoutingConfig>,
    client: ClickHouseClient,
) -> bool {
    match (before, after) {
        (Some(b), Some(a)) => {
            &&& a.cluster == b.cluster
            &&& a.topology_config_path == b.topology_config_path
            &&& a.shard_http_port == b.shard_http_port
            &&& sharding::opt_text(a.gsfa_local_table) == chosen_local_table(
                sharding::opt_text(b.gsfa_local_table),
                client.gsfa_table@,
            )
            &&& sharding::opt_text(a.signatures_local_table) == sharding::opt_text(
                client.signatures_local_table,
            )
            &&& sharding::opt_text(a.token_owner_activity_local_table) == sharding::opt_text(
                client.token_owner_activity_local_table,
            )
            &&& sharding::opt_text(a.transactions_local_table) == sharding::opt_text(
                client.transactions_local_table,
            )
            &&& sharding::opt_text(a.blocks_metadata_local_table) == sharding::opt_text(
                client.blocks_metadata_local_table,
            )
        },
        (None, None) => true,
        _ => false,
    }
}

impl ClickHouseClient {
    /// There are buckets, room for work, and shards where there is a topology.
    pub open spec fn wf(self) -> bool {
        &&& self.bucket_moduli.wf()
        &&& self.fanout_concurrency > 0
        &&& self.http_concurrency > 0
        &&& self.tcp_pool_max > 0
        &&& self.tcp_pool_min <= self.tcp_pool_max
        &&& self.in_clause_chunk > 0
        &&& self.shard_topology matches Some(topology) ==> topology.wf()
        &&& self.found_topology matches Some(topology) ==> topology.wf()
    }

    /// A client that has not looked at the database yet.
    pub fn new(
        url: &str,
        database: &str,
        username: &str,
        password: &str,
        options: ClickHouseClientOptions,
        environment: ClientEnvironment,
    ) -> (r: ClickHouseClient)
        ensures
            r.wf(),
            r.url@ == url@ && r.database@ == database@ && r.username@ == username@ && r.password@
                == password@,
            r.transaction_table@ == text_or(
                environment.transaction_table,
                text_or(environment.signature_table, "default.transactions"@),
            ),
            r.blocks_metadata_table@ == text_or(
                environment.blocks_metadata_table,
                "default.blocks_metadata"@,
            ),
            r.gsfa_table@ == text_or(environment.gsfa_table, "default.gsfa"@),
            r.signature_statuses_table@ == text_or(
                environment.signature_statuses_table,
                "default.signatures"@,
            ),
            r.token_owner_activity_table@ == text_or(
                environment.token_owner_activity_table,
                "default.token_owner_activity"@,
            ),
            r.gsfa_hot_table == options.gsfa_hot_table,
            r.gsfa_hot_local_table == options.gsfa_hot_local_table,
            r.gsfa_hot_addresses == options.gsfa_hot_addresses,
            r.gsfa_hot_pubkeys@.len() == 0,
            sharding::opt_text(r.signatures_local_table) == chosen_local_table(
                configured_table(
                    options.shard_routing,
                    |c: ShardRoutingConfig| c.signatures_local_table,
                ),
                r.signature_statuses_table@,
            ),
            sharding::opt_text(r.token_owner_activity_local_table) == chosen_local_table(
                configured_table(
                    options.shard_routing,
                    |c: ShardRoutingConfig| c.token_owner_activity_local_table,
                ),
                r.token_owner_activity_table@,
            ),
            sharding::opt_text(r.transactions_local_table) == chosen_local_table(
                configured_table(
                    options.shard_routing,
                    |c: ShardRoutingConfig| c.transactions_local_table,
                ),
                r.transaction_table@,
            ),
            sharding::opt_text(r.blocks_metadata_local_table) == chosen_local_table(
                configured_table(
                    options.shard_routing,
                    |c: ShardRoutingConfig| c.blocks_metadata_local_table,
                ),
                r.blocks_metadata_table@,
            ),
            routing_completed(options.shard_routing, r.shard_routing, r),
            r.token_owner_activity_available,
            r.allow_query_settings == !environment.disable_query_settings,
            r.query_cache == options.query_cache,
            r.gsfa_router is None && r.shard_topology is None && r.found_topology is None,
            r.routing_policy == options.routing_policy,
            r.query_timeout == options.query_timeout,
            r.tcp_access_check_timeout == options.tcp_access_check_timeout,
            r.http_connect_timeout == options.http_connect_timeout,
            r.fanout_concurrency == at_least_one(options.fanout_concurrency),
            r.http_concurrency == at_least_one(options.http_concurrency),
            r.tcp_pool_max == at_least_one(options.tcp_pool_max),
            r.tcp_pool_min == (if options.tcp_pool_min < at_least_one(options.tcp_pool_max) {
                options.tcp_pool_min
            } else {
                at_least_one(options.tcp_pool_max)
            }),
            r.in_clause_chunk == at_least_one(options.in_clause_chunk),
            r.startup_table_check == options.startup_table_check,
    {
        let sizing = (TcpPoolSizing {
            min: options.tcp_pool_min,
            max: options.tcp_pool_max,
        }).bounded();
        let transaction_table = match environment.transaction_table {
            Some(table) => table,
            None => string_or(environment.signature_table, "default.transactions"),
        };
        let blocks_metadata_table = string_or(
            environment.blocks_metadata_table,
            "default.blocks_metadata",
        );
        let gsfa_table = string_or(environment.gsfa_table, "default.gsfa");
        let signature_statuses_table = string_or(
            environment.signature_statuses_table,
            "default.signatures",
        );
        let token_owner_activity_table = string_or(
            environment.token_owner_activity_table,
            "default.token_owner_activity",
        );
        let absent: Option<String> = None;
        let (c_signatures, c_token_owner, c_transactions, c_blocks) = match &options.shard_routing {
            Some(config) => (
                &config.signatures_local_table,
                &config.token_owner_activity_local_table,
                &config.transactions_local_table,
                &config.blocks_metadata_local_table,
            ),
            None => (&absent, &absent, &absent, &absent),
        };
        let signatures_local_table = choose_local_table(
            c_signatures,
            signature_statuses_table.as_str(),
        );
        let token_owner_activity_local_table = choose_local_table(
            c_token_owner,
            token_owner_activity_table.as_str(),
        );
        let transactions_local_table = choose_local_table(
            c_transactions,
            transaction_table.as_str(),
        );
        let blocks_metadata_local_table = choose_local_table(
            c_blocks,
            blocks_metadata_table.as_str(),
        );
        let shard_routing = match options.shard_routing {
            Some(config) => Some(
                ShardRoutingConfig {
                    gsfa_local_table: choose_local_table(
                        &config.gsfa_local_table,
                        gsfa_table.as_str(),
                    ),
                    signatures_local_table: choose_local_table(
                        &config.signatures_local_table,
                        signature_statuses_table.as_str(),
                    ),
                    token_owner_activity_local_table: choose_local_table(
                        &config.token_owner_activity_local_table,
                        token_owner_activity_table.as_str(),
                    ),
                    transactions_local_table: choose_local_table(
                        &config.transactions_local_table,
                        transaction_table.as_str(),
                    ),
                    blocks_metadata_local_table: choose_local_table(
                        &config.blocks_metadata_local_table,
                        blocks_metadata_table.as_str(),
                    ),
                    cluster: config.cluster,
                    topology_config_path: config.topology_config_path,
                    shard_http_port: config.shard_http_port,
                },
            ),
            None => None,
        };
        ClickHouseClient {
            url: url.to_owned(),
            database: database.to_owned(),
            username: username.to_owned(),
            password: password.to_owned(),
            transaction_table,
            blocks_metadata_table,
            gsfa_table,
            gsfa_hot_table: options.gsfa_hot_table,
            gsfa_hot_local_table: options.gsfa_hot_local_table,
            gsfa_hot_addresses: options.gsfa_hot_addresses,
            gsfa_hot_pubkeys: Vec::new(),
            signature_statuses_table,
            token_owner_activity_table,
            signatures_local_table,
            token_owner_activity_local_table,
            transactions_local_table,
            blocks_metadata_local_table,
            token_owner_activity_available: true,
            bucket_moduli: BucketModuli::default(),
            allow_query_settings: !environment.disable_query_settings,
            query_cache: options.query_cache,
            gsfa_router: None,
            shard_topology: None,
            found_topology: None,
            shard_routing,
            routing_policy: options.routing_policy,
            query_timeout: options.query_timeout,
            tcp_access_check_timeout: options.tcp_access_check_timeout,
            http_connect_timeout: options.http_connect_timeout,
            fanout_concurrency: at_least(options.fanout_concurrency),
            http_concurrency: at_least(options.http_concurrency),
            tcp_pool_min: sizing.min,
            tcp_pool_max: sizing.max,
            in_clause_chunk: at_least(options.in_clause_chunk),
            startup_table_check: options.startup_table_check,
        }
    }

    /// Whether the activity of token owners can be read.
    pub fn token_owner_activity_available(&self) -> (r: bool)
        ensures
            r == self.token_owner_activity_available,
    {
        self.token_owner_activity_available
    }

    /// Sets whether the activity of token owners can be read.
    pub fn set_token_owner_activity_available_for_tests(&mut self, available: bool)
        ensures
            *final(self) == (ClickHouseClient {
                token_owner_activity_available: available,
                ..*old(self)
            }),
    {
        self.token_owner_activity_available = available;
    }

    /// Whether queries go to the shards themselves.
    pub fn scope_shard_direct(&self) -> (r: bool)
        ensures
            r == (self.routing_policy.scope is ShardDirect),
    {
        self.routing_policy.scope == RoutingScope::ShardDirect
    }

    /// Whether shards are reached natively.
    pub fn transport_tcp(&self) -> (r: bool)
        ensures
            r == (self.routing_policy.transport is Tcp),
    {
        self.routing_policy.transport == RoutingTransport::Tcp
    }

    /// Whether shards are reached by HTTP.
    pub fn transport_http(&self) -> (r: bool)
        ensures
            r == (self.routing_policy.transport is Http),
    {
        self.routing_policy.transport == RoutingTransport::Http
    }

    /// The time for a shard query.
    pub fn shard_tcp_query_timeout(&self) -> (r: Duration)
        ensures
            r == shard_timeout(self.query_timeout),
    {
        shard_tcp_query_timeout_for(self.query_timeout)
    }

    /// The number of buckets of the signatures.
    pub fn signatures_bucket_modulus(&self) -> (r: u64)
        ensures
            r == self.bucket_moduli.signatures,
    {
        self.bucket_moduli.signatures
    }

    /// The number of buckets of the token owners.
    pub fn token_owner_bucket_modulus(&self) -> (r: u64)
        ensures
            r == self.bucket_moduli.token_owner_activity,
    {
        self.bucket_moduli.token_owner_activity
    }

    /// Whether an address has a history of its own.
    pub open spec fn is_hot(self, pubkey: Seq<u8>) -> bool {
        lists::keys(self.gsfa_hot_pubkeys@).contains(pubkey)
    }

    /// Whether an address has a history of its own.
    pub fn is_gsfa_hot_address(&self, pubkey: &[u8; 32]) -> (r: bool)
        ensures
            r == self.is_hot(pubkey@),
    {
        match lists::position_of_key(&self.gsfa_hot_pubkeys, pubkey) {
            Some(i) => {
                assert(lists::keys(self.gsfa_hot_pubkeys@)[i as int] == pubkey@);
                true
            },
            None => false,
        }
    }

    /// The number of buckets of the history of an address.
    pub fn gsfa_bucket_modulus_for_address(&self, pubkey: &[u8; 32]) -> (r: u64)
        ensures
            r == (if self.is_hot(pubkey@) {
                self.bucket_moduli.gsfa_hot
            } else {
                self.bucket_moduli.gsfa
            }),
    {
        if self.is_gsfa_hot_address(pubkey) {
            self.bucket_moduli.gsfa_hot
        } else {
            self.bucket_moduli.gsfa
        }
    }

    /// Whether the history of an address is read on all shards.
    pub fn should_use_gsfa_hot_fanout(&self, pubkey: &[u8; 32]) -> (r: bool)
        ensures
            r == (self.is_hot(pubkey@) && self.shard_topology is Some),
    {
        self.is_gsfa_hot_address(pubkey) && self.shard_topology.is_some()
    }

    /// Whether the history of an address is read on one shard.
    pub fn should_use_gsfa_shard_routing(&self, pubkey: &[u8; 32]) -> (r: bool)
        ensures
            r == !self.is_hot(pubkey@),
    {
        !self.is_gsfa_hot_address(pubkey)
    }

    /// The distributed table with the history of an address.
    pub fn gsfa_table_for_address<'a>(&'a self, pubkey: &[u8; 32]) -> (r: &'a str)
        ensures
            r@ == (if self.is_hot(pubkey@) {
                self.gsfa_hot_table@
            } else {
                self.gsfa_table@
            }),
    {
        if self.is_gsfa_hot_address(pubkey) {
            self.gsfa_hot_table.as_str()
        } else {
            self.gsfa_table.as_str()
        }
    }

    /// The shards that hot histories are read on.
    pub fn hot_shard_topology(&self) -> (r: Result<&ShardTopology, ProcessingError>)
        ensures
            match self.shard_topology {
                Some(topology) => r == Ok::<&ShardTopology, ProcessingError>(&topology),
                None => {
                    &&& r matches Err(e)
                    &&& e is Database
                    &&& e.context()
                        == "GSFA hot routing requires shard topology discovery and validated shard-local hot tables"@
                },
            },
    {
        match &self.shard_topology {
            Some(topology) => Ok(topology),
            None => Err(
                ProcessingError::database_msg(
                    "GSFA hot routing requires shard topology discovery and validated shard-local hot tables".to_owned(),
                ),
            ),
        }
    }

    /// Whether addresses with a history of their own are configured.
    pub fn gsfa_hot_routing_configured(&self) -> (r: bool)
        ensures
            r == hot_routing_configured(self.gsfa_hot_addresses@),
    {
        has_usable_gsfa_hot_addresses(&self.gsfa_hot_addresses)
    }
}

/// The address that a text of the configuration means, where it means one.
pub open spec fn hot_address(text: Seq<char>) -> Option<Seq<u8>> {
    if text_search::trim(text).len() == 0 {
        None
    } else {
        hashing::parsed_pubkey(text_search::trim(text))
    }
}

/// The addresses that some texts of the configuration mean.
pub open spec fn hot_addresses(texts: Seq<String>) -> Seq<Seq<u8>>
    decreases texts.len(),
{
    if texts.len() == 0 {
        Seq::empty()
    } else {
        match hot_address(texts.last()@) {
            Some(key) => hot_addresses(texts.drop_last()).push(key),
            None => hot_addresses(texts.drop_last()),
        }
    }
}

/// Whether some text of the configuration means an address.
pub open spec fn hot_routing_configured(texts: Seq<String>) -> bool {
    hot_addresses(texts).len() > 0
}

/// Reads the addresses that have a history of their own; texts that mean none are left out.
pub fn hot_address_candidates(addresses: &Vec<String>) -> (r: Vec<[u8; 32]>)
    ensures
        lists::keys(r@) == hot_addresses(addresses@),
{
    let mut r: Vec<[u8; 32]> = Vec::new();
    let mut i: usize = 0;
    proof {
        assert(addresses@.take(0) =~= Seq::<String>::empty());
        assert(lists::keys(r@) =~= Seq::<Seq<u8>>::empty());
    }
    while i < addresses.len()
        invariant
            i <= addresses.len(),
            lists::keys(r@) == hot_addresses(addresses@.take(i as int)),
        decreases addresses.len() - i,
    {
        let ghost before = r@;
        proof {
            assert(addresses@.take(i + 1).drop_last() =~= addresses@.take(i as int));
        }
        let address = text_search::trim_text(addresses[i].as_str());
        if !address.as_str().is_empty() {
            if let Some(key) = hashing::parse_pubkey(address.as_str()) {
                r.push(key);
                proof {
                    assert(lists::keys(r@) =~= lists::keys(before).push(key@));
                }
            }
        }
        i += 1;
    }
    proof {
        assert(addresses@.take(addresses.len() as int) =~= addresses@);
    }
    r
}

/// Whether some text of the configuration means an address.
pub fn has_usable_gsfa_hot_addresses(addresses: &Vec<String>) -> (r: bool)
    ensures
        r == hot_routing_configured(addresses@),
{
    let candidates = hot_address_candidates(addresses);
    assert(lists::keys(candidates@).len() == candidates@.len());
    candidates.len() > 0
}

/// The time that is left for another attempt is a quarter of the request, but half a second at least and
/// five at most; of a request of a second or less it is half.
pub proof fn law_reserve_is_a_quarter_within_bounds(timeout_ms: int)
    requires
        timeout_ms >= 0,
    ensures
        ({
            let reserve = shard_reserve_ms(timeout_ms);
            &&& timeout_ms <= 1_000 ==> 2 * reserve <= timeout_ms < 2 * reserve + 2
            &&& timeout_ms > 1_000 ==> 500 <= reserve <= 5_000
            &&& 2_000 <= timeout_ms <= 20_000 ==> 4 * reserve <= timeout_ms < 4 * reserve + 4
            &&& 1_000 < timeout_ms <= 2_000 ==> reserve == 500
            &&& timeout_ms >= 20_000 ==> reserve == 5_000
        }),
{
}

/// A table that is named with its database is looked for there, and another one in the database of the
/// connection. Backquotes around the names are no part of them.
pub proof fn law_table_is_looked_for_in_its_database(
    default_database: Seq<char>,
    database: Seq<char>,
    name: Seq<char>,
)
    requires
        database.len() > 0 && name.len() > 0,
        !database.contains('.') && !name.contains('.'),
        !database.contains('`') && !name.contains('`'),
    ensures
        table_reference(default_database, database + "."@ + name) == (database, name),
        table_reference(default_database, "`"@ + database + "`.`"@ + name + "`"@) == (database, name),
        table_reference(default_database, name) == (default_database, name),
        table_reference(default_database, "`"@ + name + "`"@) == (default_database, name),
{
    reveal_strlit(".");
    reveal_strlit("`");
    reveal_strlit("`.`");
    assert(database.contains(database[0]) && name.contains(name[0]));
    assert(database.contains(database.last()) && name.contains(name.last()));
    let once = Seq::new(1, |i: int| '`');
    let never = Seq::new(0, |i: int| '`');
    let whole = database + "."@ + name;
    let quoted = "`"@ + database + "`.`"@ + name + "`"@;
    lemma_last_dot(database, name);
    assert(whole =~= database + seq!['.'] + name);
    assert(whole.take(database.len() as int) =~= never + database + never);
    assert(whole.skip(database.len() as int + 1) =~= never + name + never);
    text_search::law_trim_takes_the_character_around('`', 0, database, 0);
    text_search::law_trim_takes_the_character_around('`', 0, name, 0);
    text_search::law_trim_takes_the_character_around('`', 1, database, 1);
    text_search::law_trim_takes_the_character_around('`', 1, name, 1);
    assert(once =~= "`"@);
    let d = "`"@ + database + "`"@;
    let n = "`"@ + name + "`"@;
    assert(!d.contains('.') && !n.contains('.')) by {
        assert forall|i: int| 0 <= i < d.len() implies d[i] != '.' by {
            if 0 < i < d.len() - 1 {
                assert(d[i] == database[i - 1]);
                assert(database.contains(database[i - 1]));
            }
        }
        assert forall|i: int| 0 <= i < n.len() implies n[i] != '.' by {
            if 0 < i < n.len() - 1 {
                assert(n[i] == name[i - 1]);
                assert(name.contains(name[i - 1]));
            }
        }
    }
    lemma_last_dot(d, n);
    assert(quoted =~= d + seq!['.'] + n);
    assert(quoted.take(d.len() as int) =~= d);
    assert(quoted.skip(d.len() as int + 1) =~= n);
    lemma_no_dot(name);
    lemma_no_dot(n);
    assert(name =~= never + name + never);
}

/// The last dot of a text with one.
proof fn lemma_last_dot(a: Seq<char>, b: Seq<char>)
    requires
        !b.contains('.'),
    ensures
        text_search::last_position(a + seq!['.'] + b, '.') == a.len(),
    decreases b.len(),
{
    let s = a + seq!['.'] + b;
    if b.len() == 0 {
        assert(s.last() == '.');
    } else {
        assert(s.last() == b.last() && b[b.len() - 1] == b.last());
        assert(b.contains(b.last()));
        let less = b.drop_last();
        assert forall|i: int| 0 <= i < less.len() implies less[i] != '.' by {
            assert(b.contains(b[i]));
        }
        lemma_last_dot(a, less);
        assert(s.drop_last() =~= a + seq!['.'] + less);
    }
}

proof fn lemma_no_dot(s: Seq<char>)
    requires
        !s.contains('.'),
    ensures
        text_search::last_position(s, '.') == -1,
    decreases s.len(),
{
    if s.len() > 0 {
        assert(s[s.len() - 1] == s.last());
        assert(s.contains(s.last()));
        let less = s.drop_last();
        assert forall|i: int| 0 <= i < less.len() implies less[i] != '.' by {
            assert(s.contains(s[i]));
        }
        lemma_no_dot(less);
    }
}

/// The hot addresses are those that some text of the configuration means, blanks around it aside.
pub proof fn law_hot_addresses_are_those_configured(texts: Seq<String>, key: Seq<u8>)
    ensures
        hot_addresses(texts).contains(key) <==> exists|i: int|
            0 <= i < texts.len() && hashing::parsed_pubkey(
                text_search::trim((#[trigger] texts[i])@),
            ) == Some(key) && text_search::trim(texts[i]@).len() > 0,
        hot_routing_configured(texts) <==> exists|i: int|
            0 <= i < texts.len() && hashing::parsed_pubkey(
                text_search::trim((#[trigger] texts[i])@),
            ) is Some && text_search::trim(texts[i]@).len() > 0,
    decreases texts.len(),
{
    if texts.len() > 0 {
        let rest = texts.drop_last();
        law_hot_addresses_are_those_configured(rest, key);
        let found = hot_addresses(rest);
        let all = hot_addresses(texts);
        let last = texts.last();
        assert(texts[texts.len() - 1] == last);
        assert forall|i: int| 0 <= i < rest.len() implies rest[i] == #[trigger] texts[i] by {}
        if found.contains(key) {
            assert(all[found.index_of(key)] == key);
        }
        if hot_address(last@) == Some(key) {
            assert(all[found.len() as int] == key);
        }
        if all.contains(key) && !found.contains(key) {
            let p = all.index_of(key);
            if p < found.len() {
                assert(found[p] == key);
            }
        }
        if exists|i: int|
            0 <= i < rest.len() && hashing::parsed_pubkey(text_search::trim((#[trigger] rest[i])@)) == Some(
                key,
            ) && text_search::trim(rest[i]@).len() > 0 {
            let i = choose|i: int|
                0 <= i < rest.len() && hashing::parsed_pubkey(text_search::trim((#[trigger] rest[i])@))
                    == Some(key) && text_search::trim(rest[i]@).len() > 0;
            assert(texts[i] == rest[i]);
        }
        if exists|i: int|
            0 <= i < rest.len() && hashing::parsed_pubkey(text_search::trim((#[trigger] rest[i])@)) is Some
                && text_search::trim(rest[i]@).len() > 0 {
            let i = choose|i: int|
                0 <= i < rest.len() && hashing::parsed_pubkey(text_search::trim((#[trigger] rest[i])@))
                    is Some && text_search::trim(rest[i]@).len() > 0;
            assert(texts[i] == rest[i]);
        }
    }
}

/// A definition is compared without its white space and its backquotes.
pub proof fn law_definition_is_compared_without_blanks(value: Seq<char>, c: char)
    requires
        normal_ddl(value).contains(c),
    ensures
        c != '`',
        !text_search::is_ascii_white(c),
        !('A' <= c <= 'Z'),
{
    let plain = text_search::without_ascii_white(value);
    let bare = text_search::replace_char(plain, '`', Seq::empty());
    let p = normal_ddl(value).index_of(c);
    text_search::law_lower_leaves_no_capital(bare, p);
    let d = bare[p];
    lemma_removed(plain, '`', p);
    broadcast use vstd::seq_lib::group_filter_ensures;

    assert(plain.contains(d));
    assert(!text_search::is_ascii_white(d));
}

proof fn lemma_removed(s: Seq<char>, c: char, i: int)
    requires
        0 <= i < text_search::replace_char(s, c, Seq::empty()).len(),
    ensures
        text_search::replace_char(s, c, Seq::empty())[i] != c,
        s.contains(text_search::replace_char(s, c, Seq::empty())[i]),
    decreases s.len(),
{
    let less = s.drop_last();
    let front = text_search::replace_char(less, c, Seq::empty());
    let all = text_search::replace_char(s, c, Seq::empty());
    assert(front + Seq::<char>::empty() =~= front);
    if i < front.len() {
        lemma_removed(less, c, i);
        assert(all[i] == front[i]);
        let p = less.index_of(front[i]);
        assert(s[p] == front[i]);
    } else {
        assert(s[s.len() - 1] == s.last());
        assert(all[i] == s.last());
    }
}

/// Shards are read for the address history only where its table is a materialized view that distributes
/// it over the local table by the hash of the address.
pub proof fn law_history_is_distributed_by_address(
    default_database: Seq<char>,
    gsfa_table: Seq<char>,
    gsfa_local_table: Seq<char>,
    engine: Seq<char>,
    definition: Seq<char>,
)
    ensures
        ({
            let (database, table) = table_reference(default_database, gsfa_local_table);
            layout_error(default_database, gsfa_table, gsfa_local_table, engine, definition) is None <==> {
                &&& text_search::lower(engine) == "materializedview"@
                &&& text_search::contains(normal_ddl(definition), "engine=distributed("@)
                &&& text_search::contains(
                    normal_ddl(definition),
                    ",'"@ + text_search::lower(database) + "','"@ + text_search::lower(table)
                        + "',cityhash64(address))as"@,
                )
            }
        }),
{
    assert(text_search::lower("materializedview"@) == "materializedview"@) by {
        reveal_strlit("materializedview");
        assert(text_search::lower("materializedview"@) =~= "materializedview"@);
    }
}

/// A local table that is configured is taken as it is, and otherwise it is named after the distributed
/// one.
pub proof fn law_configured_local_table_is_taken(
    configured: Option<Seq<char>>,
    distributed: Seq<char>,
)
    ensures
        configured is Some ==> chosen_local_table(configured, distributed) == configured,
        configured is None ==> chosen_local_table(configured, distributed) == sharding::local_table(
            distributed,
            None,
        ),
        at_least_one(0) == 1,
        forall|n: usize| n > 0 ==> #[trigger] at_least_one(n) == n,
{
}

/// The first three shards that could not be reached are named, each with its host, its port and the
/// reason.
pub proof fn law_three_failures_are_named(failures: Seq<(String, u16, String)>, i: int)
    ensures
        access_failures(failures).len() <= 3,
        failures.len() <= 3 ==> access_failures(failures).len() == failures.len(),
        failures.len() >= 3 ==> access_failures(failures).len() == 3,
        0 <= i < access_failures(failures).len() ==> access_failures(failures)[i] == failures[i].0@ + ":"@
            + text::dec(failures[i].1 as nat) + " ("@ + failures[i].2@ + ")"@,
{
}

/// A shard query has the time of the request without what is left for another attempt.
pub proof fn law_shard_query_has_the_rest_of_the_time(query_timeout: Duration)
    requires
        query_timeout.wf(),
        query_timeout.millis() <= u64::MAX,
    ensures
        query_timeout.millis() > 1 ==> shard_timeout(query_timeout).millis() + shard_reserve_ms(
            query_timeout.millis(),
        ) == query_timeout.millis(),
        query_timeout.millis() <= 1 ==> shard_timeout(query_timeout) == query_timeout,
{
}

/// A query is stopped by its name, whether it was sent under it or started by one that was.
pub proof fn law_query_is_stopped_by_its_name(query_id: Seq<char>)
    ensures
        sql::reads_as(kill_query_text(None, query_id), seq![
            "KILL QUERY"@,
            "WHERE"@,
            "(query_id = '"@ + sharding::escaped(query_id) + "' OR initial_query_id = '"@ + sharding::escaped(query_id) + "')"@,
            "ASYNC"@,
        ]),
{
    let words = sql::first("KILL QUERY"@);
    let words = sql::next(words, -1, "WHERE"@);
    let words = sql::next(words, -1, "(query_id = '"@ + sharding::escaped(query_id) + "' OR initial_query_id = '"@ + sharding::escaped(query_id) + "')"@);
    let words = sql::next(words, -1, "ASYNC"@);
    assert(sql::reads_as(kill_query_text(None, query_id), words.1)) by {
        assert("KILL QUERY WHERE "@ == "KILL QUERY"@ + sql::gap(-1) + "WHERE"@ + sql::gap(-1)) by {
            reveal_strlit("KILL QUERY WHERE ");
            reveal_strlit("KILL QUERY");
            reveal_strlit("WHERE");
        }
        assert(" ASYNC"@ == sql::gap(-1) + "ASYNC"@) by {
            reveal_strlit(" ASYNC");
            reveal_strlit("ASYNC");
        }
        broadcast use sql::lemma_joined_first;

        sql::lemma_same_text(kill_query_text(None, query_id), words);
    }
    assert(words.1 =~= seq![
        "KILL QUERY"@,
        "WHERE"@,
        "(query_id = '"@ + sharding::escaped(query_id) + "' OR initial_query_id = '"@ + sharding::escaped(query_id) + "')"@,
        "ASYNC"@,
    ]);
}

/// On a cluster it is stopped on all of it.
pub proof fn law_query_is_stopped_on_the_whole_cluster(cluster: Seq<char>, query_id: Seq<char>)
    ensures
        sql::reads_as(kill_query_text(Some(cluster), query_id), seq![
            "KILL QUERY"@,
            "ON CLUSTER"@,
            "'"@ + sharding::escaped(cluster) + "'"@,
            "WHERE"@,
            "(query_id = '"@ + sharding::escaped(query_id) + "' OR initial_query_id = '"@ + sharding::escaped(query_id) + "')"@,
            "ASYNC"@,
        ]),
{
    let words = sql::first("KILL QUERY"@);
    let words = sql::next(words, -1, "ON CLUSTER"@);
    let words = sql::next(words, -1, "'"@ + sharding::escaped(cluster) + "'"@);
    let words = sql::next(words, -1, "WHERE"@);
    let words = sql::next(words, -1, "(query_id = '"@ + sharding::escaped(query_id) + "' OR initial_query_id = '"@ + sharding::escaped(query_id) + "')"@);
    let words = sql::next(words, -1, "ASYNC"@);
    assert(sql::reads_as(kill_query_text(Some(cluster), query_id), words.1)) by {
        assert("KILL QUERY ON CLUSTER '"@ == "KILL QUERY"@ + sql::gap(-1) + "ON CLUSTER"@ + sql::gap(-1) + "'"@) by {
            reveal_strlit("KILL QUERY ON CLUSTER '");
            reveal_strlit("KILL QUERY");
            reveal_strlit("ON CLUSTER");
            reveal_strlit("'");
        }
        assert("' WHERE "@ == "'"@ + sql::gap(-1) + "WHERE"@ + sql::gap(-1)) by {
            reveal_strlit("' WHERE ");
            reveal_strlit("'");
            reveal_strlit("WHERE");
        }
        assert(" ASYNC"@ == sql::gap(-1) + "ASYNC"@) by {
            reveal_strlit(" ASYNC");
            reveal_strlit("ASYNC");
        }
        broadcast use sql::lemma_joined_first;

        sql::lemma_same_text(kill_query_text(Some(cluster), query_id), words);
    }
    assert(words.1 =~= seq![
        "KILL QUERY"@,
        "ON CLUSTER"@,
        "'"@ + sharding::escaped(cluster) + "'"@,
        "WHERE"@,
        "(query_id = '"@ + sharding::escaped(query_id) + "' OR initial_query_id = '"@ + sharding::escaped(query_id) + "')"@,
        "ASYNC"@,
    ]);
}

/// A table is checked by the number of its rows.
pub proof fn law_count_check_counts_all_rows(table: Seq<char>)
    ensures
        sql::reads_as(table_check_query(ClickHouseStartupTableCheck::Count, table), seq![
            "SELECT"@,
            "COUNT(*)"@,
            "FROM"@,
            table,
        ]),
{
    let words = sql::first("SELECT"@);
    let words = sql::next(words, -1, "COUNT(*)"@);
    let words = sql::next(words, -1, "FROM"@);
    let words = sql::next(words, -1, table);
    assert(sql::reads_as(table_check_query(ClickHouseStartupTableCheck::Count, table), words.1)) by {
        assert("SELECT COUNT(*) FROM "@ == "SELECT"@ + sql::gap(-1) + "COUNT(*)"@ + sql::gap(-1) + "FROM"@ + sql::gap(-1)) by {
            reveal_strlit("SELECT COUNT(*) FROM ");
            reveal_strlit("SELECT");
            reveal_strlit("COUNT(*)");
            reveal_strlit("FROM");
        }
        broadcast use sql::lemma_joined_first;

        sql::lemma_same_text(table_check_query(ClickHouseStartupTableCheck::Count, table), words);
    }
    assert(words.1 =~= seq![
        "SELECT"@,
        "COUNT(*)"@,
        "FROM"@,
        table,
    ]);
}

/// A table is checked without reading any of its rows.
pub proof fn law_existence_check_reads_no_rows(table: Seq<char>)
    ensures
        sql::reads_as(table_check_query(ClickHouseStartupTableCheck::Exists, table), seq![
            "SELECT"@,
            "count()"@,
            "FROM"@,
            table,
            "WHERE"@,
            "0"@,
        ]),
{
    let words = sql::first("SELECT"@);
    let words = sql::next(words, -1, "count()"@);
    let words = sql::next(words, -1, "FROM"@);
    let words = sql::next(words, -1, table);
    let words = sql::next(words, -1, "WHERE"@);
    let words = sql::next(words, -1, "0"@);
    assert(sql::reads_as(table_check_query(ClickHouseStartupTableCheck::Exists, table), words.1)) by {
        assert("SELECT count() FROM "@ == "SELECT"@ + sql::gap(-1) + "count()"@ + sql::gap(-1) + "FROM"@ + sql::gap(-1)) by {
            reveal_strlit("SELECT count() FROM ");
            reveal_strlit("SELECT");
            reveal_strlit("count()");
            reveal_strlit("FROM");
        }
        assert(" WHERE 0"@ == sql::gap(-1) + "WHERE"@ + sql::gap(-1) + "0"@) by {
            reveal_strlit(" WHERE 0");
            reveal_strlit("WHERE");
            reveal_strlit("0");
        }
        broadcast use sql::lemma_joined_first;

        sql::lemma_same_text(table_check_query(ClickHouseStartupTableCheck::Exists, table), words);
    }
    assert(words.1 =~= seq![
        "SELECT"@,
        "count()"@,
        "FROM"@,
        table,
        "WHERE"@,
        "0"@,
    ]);
}

/// The columns that are asked for are those of the table in its database, in their order.
pub proof fn law_columns_are_those_of_the_table(default_database: Seq<char>, table: Seq<char>)
    ensures
        ({
            let (database, name) = table_reference(default_database, table);
            sql::reads_as(describe_query(default_database, table), seq![
            "SELECT name, default_kind AS default_type, default_expression"@,
            "FROM"@,
            "system.columns"@,
            "WHERE"@,
            "database = '"@ + sharding::escaped(database) + "'"@,
            "AND"@,
            "table = '"@ + sharding::escaped(name) + "'"@,
            "ORDER BY"@,
            "position"@,
        ])
        }),
{
    let (database, name) = table_reference(default_database, table);
    let words = sql::first("SELECT name, default_kind AS default_type, default_expression"@);
    let words = sql::next(words, -1, "FROM"@);
    let words = sql::next(words, -1, "system.columns"@);
    let words = sql::next(words, -1, "WHERE"@);
    let words = sql::next(words, -1, "database = '"@ + sharding::escaped(database) + "'"@);
    let words = sql::next(words, -1, "AND"@);
    let words = sql::next(words, -1, "table = '"@ + sharding::escaped(name) + "'"@);
    let words = sql::next(words, -1, "ORDER BY"@);
    let words = sql::next(words, -1, "position"@);
    assert(sql::reads_as(describe_query(default_database, table), words.1)) by {
        assert("SELECT name, default_kind AS default_type, default_expression FROM system.columns WHERE database = '"@ == "SELECT name, default_kind AS default_type, default_expression"@ + sql::gap(-1) + "FROM"@ + sql::gap(-1) + "system.columns"@ + sql::gap(-1) + "WHERE"@ + sql::gap(-1) + "database = '"@) by {
            reveal_strlit("SELECT name, default_kind AS default_type, default_expression FROM system.columns WHERE database = '");
            reveal_strlit("SELECT name, default_kind AS default_type, default_expression");
            reveal_strlit("FROM");
            reveal_strlit("system.columns");
            reveal_strlit("WHERE");
            reveal_strlit("database = '");
        }
        assert("' AND table = '"@ == "'"@ + sql::gap(-1) + "AND"@ + sql::gap(-1) + "table = '"@) by {
            reveal_strlit("' AND table = '");
            reveal_strlit("'");
            reveal_strlit("AND");
            reveal_strlit("table = '");
        }
        assert("' ORDER BY position"@ == "'"@ + sql::gap(-1) + "ORDER BY"@ + sql::gap(-1) + "position"@) by {
            reveal_strlit("' ORDER BY position");
            reveal_strlit("'");
            reveal_strlit("ORDER BY");
            reveal_strlit("position");
        }
        broadcast use sql::lemma_joined_first;

        sql::lemma_same_text(describe_query(default_database, table), words);
    }
    assert(words.1 =~= seq![
        "SELECT name, default_kind AS default_type, default_expression"@,
        "FROM"@,
        "system.columns"@,
        "WHERE"@,
        "database = '"@ + sharding::escaped(database) + "'"@,
        "AND"@,
        "table = '"@ + sharding::escaped(name) + "'"@,
        "ORDER BY"@,
        "position"@,
    ]);
}

/// The definition that is asked for is that of the table in its database.
pub proof fn law_definition_is_that_of_the_table(default_database: Seq<char>, table: Seq<char>)
    ensures
        ({
            let (database, name) = table_reference(default_database, table);
            sql::reads_as(definition_query(default_database, table), seq![
            "SELECT engine, create_table_query"@,
            "FROM"@,
            "system.tables"@,
            "WHERE"@,
            "database = '"@ + sharding::escaped(database) + "'"@,
            "AND"@,
            "name = '"@ + sharding::escaped(name) + "'"@,
            "LIMIT 1"@,
        ])
        }),
{
    let (database, name) = table_reference(default_database, table);
    let words = sql::first("SELECT engine, create_table_query"@);
    let words = sql::next(words, -1, "FROM"@);
    let words = sql::next(words, -1, "system.tables"@);
    let words = sql::next(words, -1, "WHERE"@);
    let words = sql::next(words, -1, "database = '"@ + sharding::escaped(database) + "'"@);
    let words = sql::next(words, -1, "AND"@);
    let words = sql::next(words, -1, "name = '"@ + sharding::escaped(name) + "'"@);
    let words = sql::next(words, -1, "LIMIT 1"@);
    assert(sql::reads_as(definition_query(default_database, table), words.1)) by {
        assert("SELECT engine, create_table_query FROM system.tables WHERE database = '"@ == "SELECT engine, create_table_query"@ + sql::gap(-1) + "FROM"@ + sql::gap(-1) + "system.tables"@ + sql::gap(-1) + "WHERE"@ + sql::gap(-1) + "database = '"@) by {
            reveal_strlit("SELECT engine, create_table_query FROM system.tables WHERE database = '");
            reveal_strlit("SELECT engine, create_table_query");
            reveal_strlit("FROM");
            reveal_strlit("system.tables");
            reveal_strlit("WHERE");
            reveal_strlit("database = '");
        }
        assert("' AND name = '"@ == "'"@ + sql::gap(-1) + "AND"@ + sql::gap(-1) + "name = '"@) by {
            reveal_strlit("' AND name = '");
            reveal_strlit("'");
            reveal_strlit("AND");
            reveal_strlit("name = '");
        }
        assert("' LIMIT 1"@ == "'"@ + sql::gap(-1) + "LIMIT 1"@) by {
            reveal_strlit("' LIMIT 1");
            reveal_strlit("'");
            reveal_strlit("LIMIT 1");
        }
        broadcast use sql::lemma_joined_first;

        sql::lemma_same_text(definition_query(default_database, table), words);
    }
    assert(words.1 =~= seq![
        "SELECT engine, create_table_query"@,
        "FROM"@,
        "system.tables"@,
        "WHERE"@,
        "database = '"@ + sharding::escaped(database) + "'"@,
        "AND"@,
        "name = '"@ + sharding::escaped(name) + "'"@,
        "LIMIT 1"@,
    ]);
}

} // verus!
