//! The client: its options, its timeouts and the checks at its start.
use superbank::clickhouse::client::{
    build_describe_table_query, build_table_check_query, build_table_definition_query,
    cleanup_timeout, hot_address_candidates, kill_query_sql, kill_shard_query_sql,
    shard_tcp_query_timeout_for, split_table_reference, validate_gsfa_shard_layout_query,
    ClickHouseClient, ClickHouseClientOptions, ClickHouseStartupTableCheck, ClientEnvironment,
    QueryCacheConfig, QueryCleanup,
};
use superbank::clickhouse::columns::{
    format_select_columns, gsfa_required_columns, signatures_required_columns,
    token_owner_required_columns,
};
use superbank::clickhouse::sharding::{RoutingPolicy, RoutingScope, RoutingTransport};
use superbank::time::Duration;

fn environment() -> ClientEnvironment {
    ClientEnvironment {
        transaction_table: None,
        signature_table: None,
        blocks_metadata_table: None,
        gsfa_table: None,
        signature_statuses_table: None,
        token_owner_activity_table: None,
        disable_query_settings: false,
    }
}

fn test_client_with_hot_addresses(hot_addresses: Vec<String>) -> ClickHouseClient {
    ClickHouseClient::new(
        "http://localhost:8123",
        "default",
        "default",
        "",
        ClickHouseClientOptions::new(
            RoutingPolicy {
                transport: RoutingTransport::Http,
                scope: RoutingScope::Distributed,
            },
            None,
            hot_addresses,
            "default.gsfa_hot".to_string(),
            "default.gsfa_hot_local".to_string(),
        ),
        environment(),
    )
}

#[test]
fn gsfa_hot_routing_is_disabled_for_blank_addresses() {
    let client = test_client_with_hot_addresses(vec!["   ".to_string()]);

    assert!(!client.gsfa_hot_routing_configured());
}

#[test]
fn gsfa_hot_routing_is_disabled_for_invalid_addresses() {
    let client = test_client_with_hot_addresses(vec!["not-a-pubkey".to_string()]);

    assert!(!client.gsfa_hot_routing_configured());
}

#[test]
fn gsfa_hot_routing_is_enabled_for_valid_addresses() {
    let client = test_client_with_hot_addresses(vec![
        "EPjFWdd5AufqSSqeM2qN1xzybapC8G4wEGGkZwyTDt1v".to_string(),
    ]);

    assert!(client.gsfa_hot_routing_configured());
}

#[test]
fn shard_tcp_query_timeout_leaves_room_for_fallback() {
    assert_eq!(
        shard_tcp_query_timeout_for(Duration::from_secs(8)),
        Duration::from_secs(6)
    );
    assert_eq!(
        shard_tcp_query_timeout_for(Duration::from_secs(30)),
        Duration::from_secs(25)
    );
}

#[test]
fn shard_tcp_query_timeout_handles_small_parent_budget() {
    assert_eq!(
        shard_tcp_query_timeout_for(Duration::from_millis(200)),
        Duration::from_millis(100)
    );
    assert_eq!(
        shard_tcp_query_timeout_for(Duration::from_millis(1)),
        Duration::from_millis(1)
    );
}

#[test]
fn kill_query_sql_targets_query_and_initial_query_id() {
    assert_eq!(
        kill_query_sql(None, "superbank:get_inflation_rewards_for_epoch:7"),
        "KILL QUERY WHERE (query_id = 'superbank:get_inflation_rewards_for_epoch:7' OR initial_query_id = 'superbank:get_inflation_rewards_for_epoch:7') ASYNC"
    );
}

#[test]
fn kill_query_sql_can_target_cluster() {
    assert_eq!(
        kill_query_sql(Some("bhs"), "superbank:get_inflation_rewards_for_epoch:7"),
        "KILL QUERY ON CLUSTER 'bhs' WHERE (query_id = 'superbank:get_inflation_rewards_for_epoch:7' OR initial_query_id = 'superbank:get_inflation_rewards_for_epoch:7') ASYNC"
    );
}

#[test]
fn split_table_reference_uses_explicit_database() {
    assert_eq!(
        split_table_reference("default", "analytics.gsfa"),
        ("analytics".to_string(), "gsfa".to_string())
    );
}

#[test]
fn split_table_reference_falls_back_to_default_database() {
    assert_eq!(
        split_table_reference("default", "gsfa"),
        ("default".to_string(), "gsfa".to_string())
    );
}

#[test]
fn split_table_reference_strips_backticks() {
    assert_eq!(
        split_table_reference("default", "`analytics`.`gsfa_hot`"),
        ("analytics".to_string(), "gsfa_hot".to_string())
    );
}

#[test]
fn gsfa_shard_layout_accepts_materialized_view_shape() {
    let result = validate_gsfa_shard_layout_query(
        "default",
        "default.gsfa",
        "default.gsfa_local",
        "MaterializedView",
        "CREATE MATERIALIZED VIEW default.gsfa ENGINE = Distributed('{cluster}', 'default', 'gsfa_local', cityHash64(address)) AS SELECT 1",
    );

    assert!(result.is_ok());
}

#[test]
fn gsfa_shard_layout_rejects_legacy_split_layout() {
    let err = validate_gsfa_shard_layout_query(
        "default",
        "default.gsfa",
        "default.gsfa_local",
        "Distributed",
        "CREATE TABLE default.gsfa ENGINE = Distributed('{cluster}', 'default', 'gsfa_local', cityHash64(address))",
    )
    .expect_err("legacy split layout should fail");

    assert!(
        err.message()
            .contains("must itself be a materialized view")
    );
}

#[test]
fn gsfa_shard_layout_rejects_wrong_local_table_target() {
    let err = validate_gsfa_shard_layout_query(
        "default",
        "default.gsfa",
        "default.gsfa_local",
        "MaterializedView",
        "CREATE MATERIALIZED VIEW default.gsfa ENGINE = Distributed('{cluster}', 'default', 'other_local', cityHash64(address)) AS SELECT 1",
    )
    .expect_err("wrong local table should fail");

    assert!(err.message().contains("default.gsfa_local"));
}

#[test]
fn gsfa_shard_layout_rejects_wrong_sharding_key() {
    let err = validate_gsfa_shard_layout_query(
        "default",
        "default.gsfa",
        "default.gsfa_local",
        "MaterializedView",
        "CREATE MATERIALIZED VIEW default.gsfa ENGINE = Distributed('{cluster}', 'default', 'gsfa_local', cityHash64(signature)) AS SELECT 1",
    )
    .expect_err("wrong sharding key should fail");

    assert!(err.message().contains("cityHash64(address)"));
}

#[test]
fn gsfa_shard_layout_accepts_backticked_qualified_tables() {
    let result = validate_gsfa_shard_layout_query(
        "default",
        "`analytics`.`gsfa`",
        "`analytics`.`gsfa_local`",
        "MaterializedView",
        "CREATE MATERIALIZED VIEW `analytics`.`gsfa` ENGINE = Distributed('{cluster}', 'analytics', 'gsfa_local', cityHash64(address)) AS SELECT 1",
    );

    assert!(result.is_ok());
}

fn options() -> ClickHouseClientOptions {
    ClickHouseClientOptions::new(
        RoutingPolicy { transport: RoutingTransport::Http, scope: RoutingScope::Distributed },
        None,
        Vec::new(),
        "hot".to_string(),
        "hot_local".to_string(),
    )
}

#[test]
fn options_have_defaults() {
    let o = options();
    assert_eq!(o.query_timeout, Duration::from_secs(8));
    assert_eq!(o.tcp_access_check_timeout, Duration::from_secs(2));
    assert_eq!(o.http_connect_timeout, Duration::from_secs(2));
    assert_eq!((o.fanout_concurrency, o.http_concurrency), (8, 512));
    assert_eq!((o.tcp_pool_min, o.tcp_pool_max), (10, 20));
    assert_eq!(o.in_clause_chunk, 512);
    assert_eq!(o.startup_table_check, ClickHouseStartupTableCheck::Exists);
}

#[test]
fn options_are_kept_within_bounds() {
    let cache = QueryCacheConfig { enabled: true, ttl_secs: 9 };
    let o = options()
        .with_query_timeout(Duration::from_secs(1))
        .with_tcp_access_check_timeout(Duration::from_secs(3))
        .with_http_connect_timeout(Duration::from_secs(4))
        .with_query_cache_config(cache)
        .with_fanout_concurrency(0)
        .with_http_concurrency(0)
        .with_in_clause_chunk(0)
        .with_startup_table_check(ClickHouseStartupTableCheck::Count);
    assert_eq!(o.query_timeout, Duration::from_secs(1));
    assert_eq!(o.tcp_access_check_timeout, Duration::from_secs(3));
    assert_eq!(o.http_connect_timeout, Duration::from_secs(4));
    assert_eq!(o.query_cache, cache);
    assert_eq!((o.fanout_concurrency, o.http_concurrency, o.in_clause_chunk), (1, 1, 1));
    assert_eq!(o.startup_table_check, ClickHouseStartupTableCheck::Count);
    let o = options().with_tcp_pool_sizing(7, 3);
    assert_eq!((o.tcp_pool_min, o.tcp_pool_max), (3, 3));
    let o = options().with_tcp_pool_sizing(0, 0);
    assert_eq!((o.tcp_pool_min, o.tcp_pool_max), (0, 1));
}

#[test]
fn the_environment_names_the_tables() {
    let client = ClickHouseClient::new("u", "db", "me", "secret", options(), environment());
    assert_eq!(client.transaction_table, "default.transactions");
    assert_eq!(client.blocks_metadata_table, "default.blocks_metadata");
    assert_eq!(client.token_owner_activity_table, "default.token_owner_activity");
    assert_eq!(client.signatures_local_table.as_deref(), Some("default.signatures_local"));
    assert!(client.allow_query_settings);
    let mut named = environment();
    named.signature_table = Some("old.transactions".to_string());
    named.gsfa_table = Some("my.gsfa".to_string());
    named.disable_query_settings = true;
    let client = ClickHouseClient::new("u", "db", "me", "secret", options(), named);
    assert_eq!(client.transaction_table, "old.transactions");
    assert_eq!(client.gsfa_table, "my.gsfa");
    assert!(!client.allow_query_settings);
    assert_eq!(client.shard_tcp_query_timeout(), shard_tcp_query_timeout_for(client.query_timeout));
    assert!(client.hot_shard_topology().is_err());
}

#[test]
fn tables_are_checked_described_and_defined() {
    assert_eq!(
        build_table_check_query(ClickHouseStartupTableCheck::Count, "t"),
        "SELECT COUNT(*) FROM t"
    );
    assert_eq!(
        build_table_check_query(ClickHouseStartupTableCheck::Exists, "t"),
        "SELECT count() FROM t WHERE 0"
    );
    assert_eq!(
        build_describe_table_query("db", "my.t'able"),
        "SELECT name, default_kind AS default_type, default_expression FROM system.columns WHERE database = 'my' AND table = 't''able' ORDER BY position"
    );
    assert_eq!(
        build_table_definition_query("db", "`t`"),
        "SELECT engine, create_table_query FROM system.tables WHERE database = 'db' AND name = 't' LIMIT 1"
    );
}

#[test]
fn columns_of_shards_are_required() {
    assert_eq!(gsfa_required_columns().len(), 8);
    assert_eq!(
        signatures_required_columns(),
        vec!["sig_bucket", "signature", "slot", "slot_idx", "err"]
    );
    assert_eq!(token_owner_required_columns().last(), Some(&"balance_changed"));
    assert_eq!(
        normalized(&format_select_columns(&["slot", "err"])),
        "slot, err"
    );
}

fn normalized(text: &str) -> String {
    text.split_whitespace().collect::<Vec<_>>().join(" ")
}

#[test]
fn abandoned_queries_are_ended_once() {
    assert_eq!(kill_shard_query_sql("a'b"), "KILL QUERY WHERE query_id = 'a''b' ASYNC");
    assert_eq!(cleanup_timeout(Duration::from_secs(9)), Duration::from_secs(2));
    assert_eq!(cleanup_timeout(Duration::from_millis(300)), Duration::from_millis(300));
    let mut cleanup = QueryCleanup::armed("q".to_string());
    assert_eq!(cleanup.take().as_deref(), Some("q"));
    assert_eq!(cleanup.take(), None);
    let mut cleanup = QueryCleanup::armed("q".to_string());
    cleanup.disarm();
    assert_eq!(cleanup.take(), None);
}

#[test]
fn only_decodable_addresses_are_candidates() {
    let key = [7u8; 32];
    let listed = vec![
        format!("  {} ", bs58::encode(key).into_string()),
        String::new(),
        "not-a-pubkey".to_string(),
    ];
    assert_eq!(hot_address_candidates(&listed), vec![key]);
}
