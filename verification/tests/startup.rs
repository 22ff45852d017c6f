//! The questions that are asked before the service starts, and the numbers of buckets.
use superbank::clickhouse::client::{
    ClickHouseClient, ClickHouseClientOptions, ClientEnvironment, GsfaShardRouter,
};
use superbank::clickhouse::sharding::{
    BucketColumn, DescribeTableRow, RoutingPolicy, RoutingScope, RoutingTransport,
    ShardRoutingConfig, ShardTarget, ShardTopology,
};
use superbank::clickhouse::startup::{
    bucket_of_address, build_hot_count_query, definition_reply, described,
    ensure_matching_bucket_modulus, ModuliDiscovery, ModulusStep, ShardModulus, StartupQuestion,
    StartupReply, StartupStep, StartupTable, TableDefinitionRow,
};
use superbank::processing::ProcessingError;
use superbank::time::Duration;

const HOT: &str = "Vote111111111111111111111111111111111111111";

fn environment(disable_query_settings: bool) -> ClientEnvironment {
    ClientEnvironment {
        transaction_table: None,
        signature_table: None,
        blocks_metadata_table: None,
        gsfa_table: None,
        signature_statuses_table: None,
        token_owner_activity_table: None,
        disable_query_settings,
    }
}

fn routing() -> ShardRoutingConfig {
    ShardRoutingConfig {
        cluster: "main".to_string(),
        topology_config_path: None,
        shard_http_port: None,
        gsfa_local_table: Some("default.gsfa_local".to_string()),
        signatures_local_table: Some("default.signatures_local".to_string()),
        token_owner_activity_local_table: Some("default.token_owner_activity_local".to_string()),
        transactions_local_table: None,
        blocks_metadata_local_table: None,
    }
}

fn client(
    transport: RoutingTransport,
    scope: RoutingScope,
    routing: Option<ShardRoutingConfig>,
    hot: Vec<String>,
) -> ClickHouseClient {
    ClickHouseClient::new(
        "http://localhost:8123",
        "default",
        "default",
        "",
        ClickHouseClientOptions::new(
            RoutingPolicy { transport, scope },
            routing,
            hot,
            "default.gsfa_hot".to_string(),
            "default.gsfa_hot_local".to_string(),
        ),
        environment(false),
    )
}

fn topology() -> ShardTopology {
    ShardTopology {
        total_weight: 1,
        shards: vec![ShardTarget {
            shard_num: 1,
            host: "h1".to_string(),
            tcp_port: 9000,
            http_url: "http://h1:8123/".to_string(),
        }],
        weights: vec![1],
    }
}

fn failure() -> ProcessingError {
    ProcessingError::timeout_msg("slow".to_string())
}

fn message(r: Result<StartupStep, ProcessingError>) -> String {
    match r {
        Err(ProcessingError::Database { context }) => context,
        _ => panic!("an error of the database was expected"),
    }
}

#[test]
fn a_full_startup_asks_each_question_once() {
    let mut c = client(
        RoutingTransport::Tcp,
        RoutingScope::ShardDirect,
        Some(routing()),
        vec![HOT.to_string()],
    );
    let mut step = ClickHouseClient::first_startup_step();
    let mut asked = Vec::new();
    while step != StartupStep::DiscoverModuli {
        asked.push(step);
        let reply = match step {
            StartupStep::DetectReadonly => StartupReply::Readonly(0),
            StartupStep::BuildTopology => StartupReply::Topology(topology()),
            StartupStep::CheckGsfaLayout => StartupReply::Definition {
                engine: "MaterializedView".to_string(),
                create_table_query: "CREATE MATERIALIZED VIEW default.gsfa ENGINE = Distributed('main', 'default', 'gsfa_local', cityHash64(address)) AS SELECT 1".to_string(),
            },
            _ => StartupReply::Confirmed,
        };
        step = c.startup_advance(step, reply).unwrap();
    }
    assert_eq!(
        asked,
        vec![
            StartupStep::CheckTable(StartupTable::Gsfa),
            StartupStep::CheckTable(StartupTable::Signatures),
            StartupStep::CheckTable(StartupTable::TokenOwnerActivity),
            StartupStep::CheckTable(StartupTable::BlocksMetadata),
            StartupStep::CheckTable(StartupTable::Transactions),
            StartupStep::DetectReadonly,
            StartupStep::BuildTopology,
            StartupStep::CheckTcpAccess,
            StartupStep::ValidateGsfaLocal,
            StartupStep::CheckGsfaLayout,
            StartupStep::ValidateSignaturesLocal,
            StartupStep::ValidateTokenOwnerLocal,
            StartupStep::ValidateHotLocal,
        ]
    );
    assert!(c.token_owner_activity_available);
    assert!(c.allow_query_settings);
    assert!(c.shard_topology.is_some());
    assert_eq!(c.gsfa_router.unwrap().local_table, "default.gsfa_local");
}

#[test]
fn a_missing_table_stops_the_service() {
    let mut c = client(RoutingTransport::Http, RoutingScope::Distributed, None, Vec::new());
    let step = StartupStep::CheckTable(StartupTable::Signatures);
    assert_eq!(c.startup_table_name(StartupTable::Signatures), "default.signatures");
    assert_eq!(
        message(c.startup_advance(step, StartupReply::QueryFailed)),
        "Cannot access ClickHouse table 'default.signatures'. Ensure ClickHouse is running, credentials are correct, the table exists, and network connectivity is available"
    );
    match c.startup_advance(step, StartupReply::Failed(failure())) {
        Err(ProcessingError::Timeout { context }) => assert_eq!(context, "slow"),
        _ => panic!("the failure was expected"),
    }
}

#[test]
fn shards_are_used_once_native_access_is_given() {
    let mut c =
        client(RoutingTransport::Tcp, RoutingScope::ShardDirect, Some(routing()), Vec::new());
    let found = StartupReply::Topology(topology());
    assert_eq!(
        c.startup_advance(StartupStep::BuildTopology, found).unwrap(),
        StartupStep::CheckTcpAccess
    );
    assert!(c.shard_topology.is_none());
    assert!(c.found_topology.is_some());
    let refused = StartupReply::Failed(failure());
    assert!(c.startup_advance(StartupStep::CheckTcpAccess, refused).is_err());
    assert!(c.shard_topology.is_none());
    let next = c.startup_advance(StartupStep::CheckTcpAccess, StartupReply::Confirmed);
    assert_eq!(next.unwrap(), StartupStep::ValidateGsfaLocal);
    assert!(c.shard_topology.is_some());
    assert!(c.found_topology.is_none());
}

#[test]
fn each_step_has_its_question() {
    let c = client(RoutingTransport::Tcp, RoutingScope::ShardDirect, Some(routing()), Vec::new());
    match c.startup_question(StartupStep::CheckTable(StartupTable::Gsfa)) {
        StartupQuestion::Rows(sql) => assert!(sql.contains("FROM default.gsfa"), "{sql}"),
        other => panic!("{other:?}"),
    }
    match c.startup_question(StartupStep::DetectReadonly) {
        StartupQuestion::Readonly(sql) => {
            assert_eq!(sql, "SELECT toUInt8(getSetting('readonly')) AS readonly")
        }
        other => panic!("{other:?}"),
    }
    match c.startup_question(StartupStep::CheckGsfaLayout) {
        StartupQuestion::Definition(sql) => assert!(sql.contains("system.tables")),
        other => panic!("{other:?}"),
    }
    for (step, expected, column) in [
        (StartupStep::ValidateGsfaLocal, "default.gsfa_local", "addr_bucket"),
        (StartupStep::ValidateSignaturesLocal, "default.signatures_local", "sig_bucket"),
        (
            StartupStep::ValidateTokenOwnerLocal,
            "default.token_owner_activity_local",
            "owner_bucket",
        ),
        (StartupStep::ValidateHotLocal, "default.gsfa_hot_local", "addr_bucket"),
    ] {
        match c.startup_question(step) {
            StartupQuestion::Columns { table, columns } => {
                assert_eq!(table, expected);
                assert_eq!(columns[0], column);
            }
            other => panic!("{other:?}"),
        }
    }
    assert!(matches!(c.startup_question(StartupStep::BuildTopology), StartupQuestion::Topology));
    assert!(matches!(c.startup_question(StartupStep::CheckTcpAccess), StartupQuestion::Access));
    assert!(matches!(c.startup_question(StartupStep::DiscoverModuli), StartupQuestion::Nothing));
    let unrouted = client(RoutingTransport::Http, RoutingScope::Distributed, None, Vec::new());
    assert!(matches!(
        unrouted.startup_question(StartupStep::ValidateGsfaLocal),
        StartupQuestion::Nothing
    ));
}

#[test]
fn each_number_of_buckets_has_its_table() {
    let mut c =
        client(RoutingTransport::Http, RoutingScope::ShardDirect, Some(routing()), Vec::new());
    let question = |c: &ClickHouseClient, step: ModulusStep| c.modulus_question(step);
    assert!(question(&c, ModulusStep::GsfaShards).is_none());
    c.gsfa_router = Some(GsfaShardRouter {
        local_table: "default.gsfa_local".to_string(),
        query_timeout: Duration::from_secs(1),
    });
    for (step, table, column, on_shards) in [
        (ModulusStep::Gsfa, "default.gsfa", BucketColumn::Address, false),
        (ModulusStep::Signatures, "default.signatures", BucketColumn::Signature, false),
        (ModulusStep::TokenOwner, "default.token_owner_activity", BucketColumn::Owner, false),
        (ModulusStep::Hot, "default.gsfa_hot", BucketColumn::Address, false),
        (ModulusStep::GsfaShards, "default.gsfa_local", BucketColumn::Address, true),
        (ModulusStep::SignaturesShards, "default.signatures_local", BucketColumn::Signature, true),
        (
            ModulusStep::TokenOwnerShards,
            "default.token_owner_activity_local",
            BucketColumn::Owner,
            true,
        ),
        (ModulusStep::HotShards, "default.gsfa_hot_local", BucketColumn::Address, true),
    ] {
        assert_eq!(question(&c, step), Some((table.to_string(), column, on_shards)));
    }
    assert!(question(&c, ModulusStep::Finished).is_none());
    assert_eq!(c.hot_table_query(), "SELECT COUNT(*) FROM default.gsfa_hot");
    let key = [7u8; 32];
    assert_eq!(
        c.hot_address_query(&key),
        build_hot_count_query("default.gsfa_hot", bucket_of_address(&key, 32), &key)
    );
}

#[test]
fn the_token_owner_table_may_be_missing() {
    let mut c = client(RoutingTransport::Http, RoutingScope::Distributed, None, Vec::new());
    let step = StartupStep::CheckTable(StartupTable::TokenOwnerActivity);
    assert_eq!(
        c.startup_advance(step, StartupReply::QueryFailed).unwrap(),
        StartupStep::CheckTable(StartupTable::BlocksMetadata)
    );
    assert!(!c.token_owner_activity_available());
    assert_eq!(
        c.startup_advance(step, StartupReply::Confirmed).unwrap(),
        StartupStep::CheckTable(StartupTable::BlocksMetadata)
    );
    assert!(c.token_owner_activity_available());
}

#[test]
fn read_only_servers_get_no_settings() {
    let mut c = client(RoutingTransport::Http, RoutingScope::Distributed, None, Vec::new());
    let next = c.startup_advance(StartupStep::DetectReadonly, StartupReply::Failed(failure()));
    assert_eq!(next.unwrap(), StartupStep::DiscoverModuli);
    assert!(c.allow_query_settings);
    let next = c.startup_advance(StartupStep::DetectReadonly, StartupReply::Readonly(1));
    assert_eq!(next.unwrap(), StartupStep::DiscoverModuli);
    assert!(!c.allow_query_settings);
}

#[test]
fn shard_queries_need_shard_routing() {
    let mut c = client(RoutingTransport::Http, RoutingScope::ShardDirect, None, Vec::new());
    assert_eq!(
        message(c.startup_advance(StartupStep::DetectReadonly, StartupReply::Readonly(0))),
        "CLICKHOUSE_SCOPE=shard-direct requires shard routing configuration"
    );
}

#[test]
fn unknown_shards_stop_the_service_where_they_are_needed() {
    let mut c =
        client(RoutingTransport::Http, RoutingScope::ShardDirect, Some(routing()), Vec::new());
    assert_eq!(
        message(c.startup_advance(StartupStep::BuildTopology, StartupReply::Failed(failure()))),
        "ClickHouse shard routing is required but topology initialization failed: slow"
    );
    let mut c =
        client(RoutingTransport::Http, RoutingScope::Distributed, Some(routing()), Vec::new());
    let next = c.startup_advance(StartupStep::BuildTopology, StartupReply::Failed(failure()));
    assert_eq!(next.unwrap(), StartupStep::DiscoverModuli);
    assert!(c.shard_topology.is_none());
}

#[test]
fn unreachable_shards_stop_the_service() {
    let mut c =
        client(RoutingTransport::Tcp, RoutingScope::ShardDirect, Some(routing()), Vec::new());
    match c.startup_advance(StartupStep::CheckTcpAccess, StartupReply::Failed(failure())) {
        Err(ProcessingError::Timeout { context }) => assert_eq!(context, "slow"),
        _ => panic!("the failure was expected"),
    }
}

#[test]
fn a_wrong_layout_of_the_history_stops_the_service() {
    let mut c =
        client(RoutingTransport::Http, RoutingScope::ShardDirect, Some(routing()), Vec::new());
    let reply = StartupReply::Definition {
        engine: "Distributed".to_string(),
        create_table_query: String::new(),
    };
    assert!(message(c.startup_advance(StartupStep::CheckGsfaLayout, reply))
        .starts_with("incompatible GSFA shard-direct layout: configured GSFA table 'default.gsfa'"));
    assert!(c.gsfa_router.is_none());
    let next = c.startup_advance(StartupStep::ValidateGsfaLocal, StartupReply::Failed(failure()));
    assert_eq!(next.unwrap(), StartupStep::ValidateSignaturesLocal);
}

#[test]
fn wrong_tables_of_shards_are_not_read_there() {
    let mut c =
        client(RoutingTransport::Http, RoutingScope::ShardDirect, Some(routing()), Vec::new());
    assert!(c.signatures_local_table.is_some());
    let next =
        c.startup_advance(StartupStep::ValidateSignaturesLocal, StartupReply::Failed(failure()));
    assert_eq!(next.unwrap(), StartupStep::ValidateTokenOwnerLocal);
    assert!(c.signatures_local_table.is_none());
    assert!(c.token_owner_activity_local_table.is_some());
    let next =
        c.startup_advance(StartupStep::ValidateTokenOwnerLocal, StartupReply::Failed(failure()));
    assert_eq!(next.unwrap(), StartupStep::DiscoverModuli);
    assert!(c.token_owner_activity_local_table.is_none());
}

#[test]
fn a_wrong_hot_table_stops_the_service() {
    let mut c = client(
        RoutingTransport::Http,
        RoutingScope::Distributed,
        Some(routing()),
        vec![HOT.to_string()],
    );
    assert_eq!(
        message(c.startup_advance(StartupStep::ValidateHotLocal, StartupReply::Failed(failure()))),
        "GSFA hot routing is enabled but shard-local hot table validation failed for 'default.gsfa_hot_local': slow"
    );
}

#[test]
fn bucket_numbers_are_found_table_by_table() {
    let mut c = client(
        RoutingTransport::Http,
        RoutingScope::ShardDirect,
        Some(routing()),
        vec![HOT.to_string()],
    );
    c.token_owner_activity_available = true;
    c.shard_topology = Some(topology());
    c.gsfa_router = Some(GsfaShardRouter {
        local_table: "default.gsfa_local".to_string(),
        query_timeout: Duration::from_secs(1),
    });
    let mut d = ModuliDiscovery::start();
    let mut asked = Vec::new();
    for modulus in [32, 64, 16, 8, 32, 64, 16, 8] {
        asked.push(d.step);
        d = d.advance(&c, Ok(modulus)).unwrap();
    }
    assert_eq!(d.step, ModulusStep::Finished);
    assert_eq!(
        asked,
        vec![
            ModulusStep::Gsfa,
            ModulusStep::Signatures,
            ModulusStep::TokenOwner,
            ModulusStep::Hot,
            ModulusStep::GsfaShards,
            ModulusStep::SignaturesShards,
            ModulusStep::TokenOwnerShards,
            ModulusStep::HotShards,
        ]
    );
    c.apply_moduli(d);
    assert_eq!(c.bucket_moduli.gsfa, 32);
    assert_eq!(c.signatures_bucket_modulus(), 64);
    assert_eq!(c.token_owner_bucket_modulus(), 16);
    assert_eq!(c.bucket_moduli.gsfa_hot, 8);
}

#[test]
fn only_the_hot_number_may_stay_unknown() {
    let mut c = client(
        RoutingTransport::Http,
        RoutingScope::Distributed,
        None,
        vec![HOT.to_string()],
    );
    c.set_token_owner_activity_available_for_tests(false);
    let d = ModuliDiscovery::start();
    assert!(d.advance(&c, Err(failure())).is_err());
    let d = d.advance(&c, Ok(7)).unwrap();
    let d = d.advance(&c, Ok(9)).unwrap();
    assert_eq!(d.step, ModulusStep::Hot);
    let d = d.advance(&c, Err(failure())).unwrap();
    assert_eq!(d.step, ModulusStep::Finished);
    c.apply_moduli(d);
    assert_eq!(c.bucket_moduli.gsfa, 7);
    assert_eq!(c.bucket_moduli.signatures, 9);
    assert_eq!(c.bucket_moduli.token_owner_activity, 32);
    assert_eq!(c.bucket_moduli.gsfa_hot, 32);
}

#[test]
fn shards_agree_with_the_distributed_table() {
    assert!(ensure_matching_bucket_modulus("gsfa", "a", 32, "b", 32).is_ok());
    let error = ensure_matching_bucket_modulus("gsfa", "a", 32, "b", 16).err().unwrap();
    assert_eq!(error.message(), "gsfa bucket modulus mismatch: a uses 32, b uses 16");
    let mut c =
        client(RoutingTransport::Http, RoutingScope::ShardDirect, Some(routing()), Vec::new());
    c.shard_topology = Some(topology());
    c.set_token_owner_activity_available_for_tests(false);
    let d = ModuliDiscovery::start().advance(&c, Ok(32)).unwrap().advance(&c, Ok(64)).unwrap();
    assert_eq!(d.step, ModulusStep::SignaturesShards);
    let error = d.advance(&c, Ok(65)).err().unwrap();
    assert_eq!(
        error.message(),
        "signatures bucket modulus mismatch: default.signatures uses 64, default.signatures_local uses 65"
    );
}

#[test]
fn shards_agree_with_each_other() {
    let mut shards = ShardModulus::unknown();
    assert!(shards.observe(1, "h1", 9000, "gsfa_local", 32).is_ok());
    assert!(shards.observe(2, "h2", 9000, "gsfa_local", 32).is_ok());
    let error = shards.observe(3, "h3", 9001, "gsfa_local", 16).err().unwrap();
    assert_eq!(
        error.message(),
        "Shard 3 h3:9001 table gsfa_local modulus 16 does not match previously discovered modulus 32"
    );
    assert_eq!(shards.finish("gsfa_local").unwrap(), 32);
    let error = ShardModulus::unknown().finish("gsfa_local").err().unwrap();
    assert_eq!(
        error.message(),
        "No shards available to discover bucket modulus for gsfa_local"
    );
}

#[test]
fn a_table_without_columns_is_no_table() {
    let error = described(Vec::new(), "gsfa").err().unwrap();
    assert_eq!(error.message(), "table gsfa returned no columns from system.columns");
    let rows = vec![DescribeTableRow {
        name: "slot".to_string(),
        default_type: String::new(),
        default_expression: String::new(),
    }];
    assert_eq!(described(rows, "gsfa").unwrap()[0].name, "slot");
}

#[test]
fn hot_addresses_are_those_with_rows() {
    let mut c = client(RoutingTransport::Http, RoutingScope::Distributed, None, Vec::new());
    let candidates = vec![[1u8; 32], [2u8; 32], [3u8; 32], [1u8; 32]];
    let counts = vec![Some(4), Some(0), None, Some(4)];
    c.apply_hot_addresses(&candidates, Some(10), &counts);
    assert_eq!(c.gsfa_hot_pubkeys, vec![[1u8; 32]]);
    assert!(c.is_gsfa_hot_address(&[1u8; 32]));
    assert!(!c.is_gsfa_hot_address(&[2u8; 32]));
    c.apply_hot_addresses(&candidates, Some(0), &counts);
    assert!(c.gsfa_hot_pubkeys.is_empty());
    c.apply_hot_addresses(&candidates, None, &counts);
    assert!(c.gsfa_hot_pubkeys.is_empty());
}

#[test]
fn rows_of_an_address_are_counted_in_its_bucket() {
    assert_eq!(
        build_hot_count_query("default.gsfa_hot", 5, &[0xAB; 32]),
        format!(
            "SELECT COUNT(*) FROM default.gsfa_hot PREWHERE addr_bucket = 5 AND address = toFixedString(unhex('{}'), 32)",
            "AB".repeat(32)
        )
    );
    let key = [9u8; 32];
    assert_eq!(bucket_of_address(&key, 32), ch_cityhash102::cityhash64(&key) % 32);
}

#[test]
fn a_table_without_definition_is_reported() {
    let rows = vec![TableDefinitionRow {
        engine: "MaterializedView".to_string(),
        create_table_query: "CREATE".to_string(),
    }];
    assert!(matches!(
        definition_reply(rows, "gsfa"),
        StartupReply::Definition { engine, create_table_query }
            if engine == "MaterializedView" && create_table_query == "CREATE"
    ));
    match definition_reply(Vec::new(), "gsfa") {
        StartupReply::Failed(error) => assert_eq!(
            error.message(),
            "table gsfa returned no definition from system.tables"
        ),
        _ => panic!("a failure was expected"),
    }
}
