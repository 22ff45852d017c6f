//! Where histories, blocks and rewards are read, and what follows a failure.
use std::cmp::Ordering;

use superbank::block_response_cache::{enabled, response_weight, CacheAccess};
use superbank::clickhouse::blocks::{
    count_or_zero, is_present, join_range_parts, slot_of_row, slot_read_next, SlotQuestion, SlotRead,
    SlotReadNext, SlotReadReply,
};
use superbank::clickhouse::client::{
    ClickHouseClient, ClickHouseClientOptions, ClientEnvironment, GsfaShardRouter, QueryCleanup,
};
use superbank::clickhouse::disconnect::DisconnectGuard;
use superbank::clickhouse::gsfa::{
    address_or_error, build_address_page_query, build_fallback_query, choose_after_fallback,
    collect_hot_records, compare_signature_records, fallback_with_clause, map_gsfa_signature_row,
    merge_hot_signature_records, needs_gsfa_fallback, parse_address, pubkey_literal, AfterFailure,
    GsfaFallbackMode, GsfaRequest, GsfaRoute, GsfaSignatureRow, ShardFailure,
};
use superbank::clickhouse::read_query::{
    begin_read, endpoint_capacity, first_row_next, read_settings, require_ready, Admission,
    CursorEvent, FirstRowNext, ReadCursorState, RowReply,
};
use superbank::clickhouse::sharding::{
    DescribeTableRow, RoutingPolicy, RoutingScope, RoutingTransport, ShardRoutingConfig,
    ShardTarget, ShardTopology,
};
use superbank::clickhouse::timeouts::{
    after_shard_query_failure, bucket_discovery_timeout, build_shard_describe_query,
    described_on_shard, operation_timeout, schema_timeout, shard_schema_result, tcp_handle_error,
    tcp_handle_timeout, DescribeOutcome,
};
use superbank::clickhouse::types::{SignatureRecord, SignatureSlot, SlotBoundary};
use superbank::processing::ProcessingError;
use superbank::time::Duration;

const EPOCH: u64 = 432_000;

fn client(transport: RoutingTransport, scope: RoutingScope) -> ClickHouseClient {
    ClickHouseClient::new(
        "http://localhost:8123",
        "default",
        "default",
        "",
        ClickHouseClientOptions::new(
            RoutingPolicy { transport, scope },
            None,
            Vec::new(),
            "default.gsfa_hot".to_string(),
            "default.gsfa_hot_local".to_string(),
        ),
        ClientEnvironment {
            transaction_table: None,
            signature_table: None,
            blocks_metadata_table: None,
            gsfa_table: None,
            signature_statuses_table: None,
            token_owner_activity_table: None,
            disable_query_settings: false,
        },
    )
}

fn topology() -> ShardTopology {
    ShardTopology {
        total_weight: 2,
        shards: (1..=2)
            .map(|n| ShardTarget {
                shard_num: n,
                host: format!("h{n}"),
                tcp_port: 9000,
                http_url: format!("http://h{n}:8123/"),
            })
            .collect(),
        weights: vec![1, 1],
    }
}

fn direct_client(transport: RoutingTransport) -> ClickHouseClient {
    let mut c = client(transport, RoutingScope::ShardDirect);
    c.shard_topology = Some(topology());
    c.transactions_local_table = Some("default.transactions_local".to_string());
    c.blocks_metadata_local_table = Some("default.blocks_metadata_local".to_string());
    c
}

fn record(signature: &str, slot: u64, slot_idx: u32) -> SignatureRecord<String> {
    SignatureRecord {
        signature: signature.to_string(),
        slot,
        slot_idx,
        err: None,
        memo: None,
        block_time: None,
    }
}

fn failure() -> ProcessingError {
    ProcessingError::database_msg("broken".to_string())
}

fn normalize_sql(sql: &str) -> String {
    sql.split_whitespace().collect::<Vec<_>>().join(" ")
}

#[test]
fn a_page_is_sorted_without_doubles_and_cut() {
    let records = vec![
        record("b", 5, 1),
        record("a", 5, 1),
        record("c", 9, 0),
        record("a", 5, 1),
        record("d", 5, 2),
        record("e", 1, 0),
    ];
    let page = merge_hot_signature_records(records, 4);
    let names: Vec<&str> = page.iter().map(|r| r.signature.as_str()).collect();
    assert_eq!(names, vec!["c", "d", "a", "b"]);
    let least = merge_hot_signature_records(vec![record("a", 1, 1), record("b", 1, 0)], 0);
    assert_eq!(least.len(), 1);
    assert!(merge_hot_signature_records::<String>(Vec::new(), 5).is_empty());
}

#[test]
fn newer_positions_come_first() {
    let newest = record("a", 7, 0);
    let older = record("a", 6, 9);
    assert_eq!(compare_signature_records(&newest, &older), Ordering::Less);
    assert_eq!(compare_signature_records(&older, &newest), Ordering::Greater);
    assert_eq!(
        compare_signature_records(&record("a", 6, 1), &record("a", 6, 2)),
        Ordering::Greater
    );
    assert_eq!(compare_signature_records(&record("A", 6, 1), &record("a", 6, 1)), Ordering::Less);
    assert_eq!(compare_signature_records(&record("a", 6, 1), &record("ab", 6, 1)), Ordering::Less);
    assert_eq!(compare_signature_records(&older, &record("a", 6, 9)), Ordering::Equal);
}

#[test]
fn the_first_failure_of_a_shard_is_that_of_the_page() {
    let replies = vec![Ok(vec![record("a", 1, 0)]), Ok(vec![record("b", 2, 0)])];
    let page = collect_hot_records(replies, true, 10).unwrap();
    assert_eq!(page[0].signature, "b");
    assert_eq!(page.len(), 2);
    let failed = |host: &str| ShardFailure::Query {
        host: host.to_string(),
        port: 9000,
        error: failure(),
    };
    let replies: Vec<Result<Vec<SignatureRecord<String>>, ShardFailure>> =
        vec![Ok(Vec::new()), Err(failed("h2")), Err(failed("h3"))];
    assert_eq!(
        collect_hot_records(replies, true, 10).err().unwrap().message(),
        "Shard-local GSFA hot TCP query failed on h2:9000: broken"
    );
    let replies: Vec<Result<Vec<SignatureRecord<String>>, ShardFailure>> = vec![Err(failed("h1"))];
    assert_eq!(
        collect_hot_records(replies, false, 10).err().unwrap().message(),
        "Shard-local GSFA hot HTTP query failed on h1:9000: broken"
    );
    let broken = ShardFailure::Task { reason: "panicked".to_string() };
    let replies: Vec<Result<Vec<SignatureRecord<String>>, ShardFailure>> = vec![Err(broken)];
    assert_eq!(
        collect_hot_records(replies, true, 10).err().unwrap().message(),
        "Shard-local GSFA hot TCP task failed: panicked"
    );
}

#[test]
fn the_table_of_all_transactions_is_asked_when_configured() {
    assert!(!needs_gsfa_fallback(GsfaFallbackMode::Disabled, 0, 10));
    assert!(needs_gsfa_fallback(GsfaFallbackMode::EmptyOnly, 0, 10));
    assert!(!needs_gsfa_fallback(GsfaFallbackMode::EmptyOnly, 1, 10));
    assert!(needs_gsfa_fallback(GsfaFallbackMode::Incomplete, 9, 10));
    assert!(!needs_gsfa_fallback(GsfaFallbackMode::Incomplete, 10, 10));
    let kept = choose_after_fallback(vec![record("a", 1, 0)], Vec::new());
    assert_eq!(kept[0].signature, "a");
    let replaced = choose_after_fallback(vec![record("a", 1, 0)], vec![record("b", 1, 0)]);
    assert_eq!(replaced[0].signature, "b");
}

#[test]
fn failed_histories_go_to_the_distributed_table() {
    assert_eq!(GsfaRoute::HotTcp.after_failure(true), AfterFailure::Try(GsfaRoute::HotHttp));
    assert_eq!(GsfaRoute::HotTcp.after_failure(false), AfterFailure::Report);
    assert_eq!(GsfaRoute::HotHttp.after_failure(true), AfterFailure::Report);
    assert_eq!(GsfaRoute::ShardTcp.after_failure(true), AfterFailure::Try(GsfaRoute::ShardHttp));
    assert_eq!(GsfaRoute::ShardTcp.after_failure(false), AfterFailure::Report);
    assert_eq!(
        GsfaRoute::ShardHttp.after_failure(false),
        AfterFailure::Try(GsfaRoute::Distributed)
    );
    assert_eq!(GsfaRoute::Distributed.after_failure(true), AfterFailure::Report);
}

#[test]
fn histories_are_read_where_they_lie() {
    let key = [1u8; 32];
    assert_eq!(
        client(RoutingTransport::Http, RoutingScope::Distributed).first_gsfa_route(&key),
        GsfaRoute::Distributed
    );
    let mut c = direct_client(RoutingTransport::Tcp);
    assert_eq!(c.first_gsfa_route(&key), GsfaRoute::Distributed);
    c.gsfa_router = Some(GsfaShardRouter {
        local_table: "default.gsfa_local".to_string(),
        query_timeout: Duration::from_secs(1),
    });
    assert_eq!(c.first_gsfa_route(&key), GsfaRoute::ShardTcp);
    c.routing_policy.transport = RoutingTransport::Http;
    assert_eq!(c.first_gsfa_route(&key), GsfaRoute::ShardHttp);
    c.gsfa_hot_pubkeys = vec![key];
    assert_eq!(c.first_gsfa_route(&key), GsfaRoute::HotHttp);
    c.routing_policy.transport = RoutingTransport::Tcp;
    assert_eq!(c.first_gsfa_route(&key), GsfaRoute::HotTcp);
}

#[test]
fn addresses_are_decoded_before_they_are_asked_for() {
    let key = [7u8; 32];
    let text = bs58::encode(key).into_string();
    assert_eq!(parse_address(&text).unwrap(), key);
    for wrong in ["", "0OIl", "abc"] {
        match parse_address(wrong) {
            Err(ProcessingError::Deserialization { context }) => {
                assert_eq!(context, "Invalid address")
            }
            _ => panic!("an error was expected"),
        }
    }
    assert_eq!(address_or_error(Some(key)).unwrap(), key);
    assert!(address_or_error(None).is_err());
}

#[test]
fn a_page_is_asked_in_the_bucket_of_the_address() {
    let key = [7u8; 32];
    let hash = ch_cityhash102::cityhash64(&key);
    assert_eq!(
        pubkey_literal(&key),
        format!("toFixedString(unhex('{}'), 32)", "07".repeat(32))
    );
    let sql = normalize_sql(&build_address_page_query(
        "default.gsfa",
        32,
        &key,
        25,
        None,
        None,
        "SETTINGS x=1",
    ));
    assert!(sql.contains(&format!(
        "addr_bucket = {} AND address = {}",
        hash % 32,
        pubkey_literal(&key)
    )));
    assert!(sql.contains("LIMIT 25 SETTINGS x=1"));
    let mut c = direct_client(RoutingTransport::Http);
    c.bucket_moduli.gsfa = 8;
    let sql = normalize_sql(&c.distributed_gsfa_query(&key, 25, None, None, ""));
    assert!(sql.contains("FROM default.gsfa "));
    assert!(sql.contains(&format!("addr_bucket = {} ", hash % 8)));
    c.bucket_moduli.gsfa_hot = 4;
    c.gsfa_hot_pubkeys = vec![key];
    let spec = c.hot_gsfa_query_spec(&key, 3, None, None);
    assert_eq!(spec.local_table, "default.gsfa_hot_local");
    assert_eq!(spec.addr_bucket, hash % 4);
    let sql = normalize_sql(&spec.to_query(""));
    assert!(sql.contains("FROM default.gsfa_hot_local"));
    assert!(sql.contains("LIMIT 3"));
}

#[test]
fn a_shard_is_asked_for_the_addresses_it_holds() {
    let router = GsfaShardRouter {
        local_table: "default.gsfa_local".to_string(),
        query_timeout: Duration::from_secs(1),
    };
    let shards = topology();
    for n in 0..8u8 {
        let key = [n; 32];
        let hash = ch_cityhash102::cityhash64(&key);
        let shard = router.shard_for_pubkey(&shards, &key);
        assert_eq!(shard.shard_num, (hash % 2) as u32 + 1);
        let sql = normalize_sql(&router.shard_gsfa_query(16, &key, 5, None, None, ""));
        assert!(sql.contains("FROM default.gsfa_local"));
        assert!(sql.contains(&format!("addr_bucket = {} ", hash % 16)));
    }
}

#[test]
fn the_table_of_all_transactions_is_searched_by_account() {
    let key = [7u8; 32];
    let with = fallback_with_clause("");
    assert!(with.starts_with("WITH memo_program_ids AS [CAST(base58Decode('Memo1Uhk"));
    assert!(with.ends_with(" AS FixedString(32))] "));
    assert!(fallback_with_clause("WITH a AS b ").ends_with("], a AS b "));
    let sql = normalize_sql(&build_fallback_query(
        "default.transactions",
        &key,
        9,
        Some(SlotBoundary::Position(SignatureSlot { slot: 5, slot_idx: 6 })),
        None,
        "SETTINGS x=1",
    ));
    assert!(sql.contains("FROM default.transactions WHERE has(account_keys_all, "));
    assert!(sql.contains(&pubkey_literal(&key)));
    assert!(sql.ends_with("LIMIT 9 SETTINGS x=1"));
    let c = client(RoutingTransport::Http, RoutingScope::Distributed);
    assert!(c.fallback_gsfa_query(&key, 9, None, None, "").contains("FROM default.transactions"));
}

#[test]
fn rows_of_a_history_become_records() {
    let row = GsfaSignatureRow {
        signature: "s".to_string(),
        slot: 4,
        slot_idx: 2,
        err: Some("{}".to_string()),
        memo: Some("hi".to_string()),
        block_time: Some(-3),
    };
    let mapped = map_gsfa_signature_row(row, Some("parsed"), Some("[2] hi".to_string()));
    assert_eq!(mapped.signature, "s");
    assert_eq!((mapped.slot, mapped.slot_idx), (4, 2));
    assert_eq!(mapped.err, Some("parsed"));
    assert_eq!(mapped.memo.as_deref(), Some("[2] hi"));
    assert_eq!(mapped.block_time, Some(-3));
}

#[test]
fn a_slot_is_read_on_its_shard_first() {
    let c = direct_client(RoutingTransport::Http);
    let metadata = SlotQuestion::BlockMetadata;
    let transactions = SlotQuestion::Transactions;
    assert_eq!(c.first_slot_read(metadata, 0), SlotRead::Local { shard: 0 });
    assert_eq!(c.first_slot_read(metadata, EPOCH), SlotRead::Local { shard: 1 });
    assert_eq!(c.first_slot_read(transactions, 2 * EPOCH), SlotRead::Local { shard: 0 });
    let hash = c.first_slot_read(SlotQuestion::BlockhashHeight, EPOCH);
    assert_eq!(hash, SlotRead::Local { shard: 1 });
    let read = c.first_slot_read(SlotQuestion::BlockTime, EPOCH);
    assert_eq!(read, SlotRead::Local { shard: 1 });
    let local = c.block_time_query_for(read, EPOCH, "", true);
    assert!(local.contains("FROM default.blocks_metadata_local"));
    let far = c.block_time_query_for(SlotRead::Retry, EPOCH, "", true);
    assert!(far.contains("FROM default.blocks_metadata\n"));
    let c = direct_client(RoutingTransport::Tcp);
    assert_eq!(c.first_slot_read(metadata, EPOCH), SlotRead::Local { shard: 1 });
    assert_eq!(c.first_slot_read(SlotQuestion::BlockTime, EPOCH), SlotRead::Distributed);
    assert_eq!(c.first_slot_read(SlotQuestion::BlockhashHeight, EPOCH), SlotRead::Distributed);
    let c = client(RoutingTransport::Http, RoutingScope::Distributed);
    assert_eq!(c.first_slot_read(metadata, 0), SlotRead::Distributed);
    assert_eq!(c.first_slot_read(transactions, 0), SlotRead::Distributed);
}

#[test]
fn a_shard_that_has_nothing_is_followed_by_the_distributed_table() {
    let local = SlotRead::Local { shard: 0 };
    let time = SlotQuestion::BlockTime;
    assert!(matches!(
        slot_read_next(time, local, SlotReadReply::Found(5)),
        SlotReadNext::Answer(5)
    ));
    assert!(matches!(
        slot_read_next(time, local, SlotReadReply::Missing(0)),
        SlotReadNext::Read(SlotRead::Retry)
    ));
    assert!(matches!(
        slot_read_next::<u8>(time, local, SlotReadReply::NotOpened(failure())),
        SlotReadNext::Read(SlotRead::Fallback)
    ));
    for question in [
        SlotQuestion::BlockhashHeight,
        SlotQuestion::BlockMetadata,
        SlotQuestion::Transactions,
    ] {
        assert!(matches!(
            slot_read_next::<u8>(question, local, SlotReadReply::Failed(failure())),
            SlotReadNext::Read(SlotRead::Fallback)
        ));
    }
    assert!(matches!(
        slot_read_next::<u8>(time, local, SlotReadReply::Failed(failure())),
        SlotReadNext::Fail(_)
    ));
    for read in [SlotRead::Fallback, SlotRead::Distributed, SlotRead::Retry] {
        assert!(matches!(
            slot_read_next(SlotQuestion::Transactions, read, SlotReadReply::Missing(0)),
            SlotReadNext::Answer(0)
        ));
        assert!(matches!(
            slot_read_next::<u8>(SlotQuestion::Transactions, read, SlotReadReply::NotOpened(failure())),
            SlotReadNext::Fail(_)
        ));
    }
}

#[test]
fn ranges_are_split_over_shards_and_put_together() {
    let c = direct_client(RoutingTransport::Http);
    let parts = c.range_parts(EPOCH - 2, EPOCH + 1, true).unwrap();
    assert_eq!(parts.len(), 2);
    assert_eq!((parts[0].shard_index, parts[0].start_slot, parts[0].end_slot), (0, EPOCH - 2, EPOCH - 1));
    assert_eq!((parts[1].shard_index, parts[1].start_slot, parts[1].end_slot), (1, EPOCH, EPOCH + 1));
    assert!(client(RoutingTransport::Http, RoutingScope::Distributed)
        .range_parts(0, 1, false)
        .is_none());
    assert_eq!(join_range_parts(vec![Some(vec![1, 2]), Some(vec![3])]), Some(vec![1, 2, 3]));
    assert_eq!(join_range_parts(vec![Some(vec![1, 2]), None]), None);
}

#[test]
fn slots_of_blocks_are_asked_in_one_query() {
    let c = direct_client(RoutingTransport::Http);
    assert!(c.block_slots_request(6, 5, "").is_none());
    assert!(c.block_slots_request(5, 6, "").unwrap().contains("FROM default.blocks_metadata\n"));
    let c = client(RoutingTransport::Http, RoutingScope::Distributed);
    assert!(c.block_slots_request(6, 5, "").is_some());
    let sql = normalize_sql(&c.block_slots_request(5, EPOCH, "SETTINGS x=1").unwrap());
    assert!(sql.contains("intDiv(slot, 432000) BETWEEN 0 AND 1 AND slot BETWEEN 5 AND 432000"));
    assert!(sql.ends_with("SETTINGS x=1"));
    assert_eq!(
        c.latest_finalized_slot_query("S"),
        "SELECT maxOrNull(slot) AS max_slot FROM default.blocks_metadata S"
    );
    assert_eq!(
        c.first_available_block_query("S"),
        "SELECT minOrNull(slot) AS min_slot FROM default.blocks_metadata S"
    );
}

#[test]
fn a_blockhash_is_looked_for_in_a_window_of_slots() {
    let c = client(RoutingTransport::Http, RoutingScope::Distributed);
    let sql = normalize_sql(&c.blockhash_valid_query_for(&[0xCD; 32], 1_000, 77, ""));
    assert!(sql.contains("slot BETWEEN 488 AND 1000"));
    assert!(sql.contains(&format!(
        "blockhash = toFixedString(unhex('{}'), 32) AND block_height >= 77",
        "CD".repeat(32)
    )));
    let sql = normalize_sql(&c.blockhash_valid_query_for(&[0xCD; 32], 10, 77, ""));
    assert!(sql.contains("slot BETWEEN 0 AND 10"));
}

#[test]
fn transactions_are_counted_up_to_a_slot() {
    let c = client(RoutingTransport::Http, RoutingScope::Distributed);
    assert!(c.transaction_count_by_slot_query(9, "").contains("PREWHERE slot <= 9"));
    assert!(c.transaction_count_before_slot_query(9, "").contains("PREWHERE slot < 9"));
    assert_eq!(count_or_zero(None), 0);
    assert_eq!(count_or_zero(Some(4)), 4);
    assert!(is_present(Some(1)));
    assert!(!is_present(None));
    assert_eq!(slot_of_row(Some(Some(3))), Some(3));
    assert_eq!(slot_of_row(Some(None)), None);
    assert_eq!(slot_of_row(None), None);
}

#[test]
fn rewards_are_read_in_one_place() {
    let mut c = direct_client(RoutingTransport::Http);
    let source = c.reward_source(EPOCH);
    assert_eq!(source.shard, Some(1));
    assert_eq!(source.table, "default.blocks_metadata_local");
    assert_eq!(source.cleanup_cluster, None);
    c.routing_policy.scope = RoutingScope::Distributed;
    c.shard_routing = Some(ShardRoutingConfig {
        cluster: "main".to_string(),
        topology_config_path: None,
        shard_http_port: None,
        gsfa_local_table: None,
        signatures_local_table: None,
        token_owner_activity_local_table: None,
        transactions_local_table: None,
        blocks_metadata_local_table: None,
    });
    let source = c.reward_source(EPOCH);
    assert_eq!(source.shard, None);
    assert_eq!(source.table, "default.blocks_metadata");
    assert_eq!(source.cleanup_cluster.as_deref(), Some("main"));
}

#[test]
fn timeouts_say_how_long_they_were() {
    assert_eq!(
        operation_timeout("get_block", Duration::from_secs(8)).message(),
        "ClickHouse operation 'get_block' timed out after 8s"
    );
    assert_eq!(
        schema_timeout(3, "h", 9000, Duration::from_millis(1_500)).message(),
        "Shard 3 h:9000 schema query timed out after 1.5s"
    );
    assert_eq!(
        bucket_discovery_timeout(3, "h", 9000, Duration::from_millis(250)).message(),
        "Shard 3 h:9000 bucket discovery timed out after 250ms"
    );
    assert_eq!(
        tcp_handle_timeout("h", 9000, Duration::from_secs(2)).message(),
        "Shard h:9000 tcp handle timed out after 2s"
    );
    assert_eq!(tcp_handle_error("h", 9000).message(), "Shard h:9000 tcp handle error");
    assert!(matches!(
        operation_timeout("x", Duration::from_secs(8)),
        ProcessingError::Timeout { .. }
    ));
}

#[test]
fn tables_of_shards_are_described() {
    assert_eq!(build_shard_describe_query("gsfa_local"), "DESCRIBE TABLE gsfa_local");
    let rows = || {
        vec![DescribeTableRow {
            name: "slot".to_string(),
            default_type: String::new(),
            default_expression: String::new(),
        }]
    };
    let text = |outcome| described_on_shard(outcome, "t", 1, "h", 9).err().unwrap().message();
    assert_eq!(text(DescribeOutcome::NoHandle), "Shard 1 h:9 handle error");
    assert_eq!(text(DescribeOutcome::QueryFailed), "Shard 1 h:9 schema query failed");
    assert_eq!(
        text(DescribeOutcome::Rows(Vec::new())),
        "Shard 1 h:9 returned no columns for t"
    );
    assert_eq!(
        described_on_shard(DescribeOutcome::Rows(rows()), "t", 1, "h", 9).unwrap().len(),
        1
    );
    assert!(shard_schema_result(DescribeOutcome::Rows(rows()), "t", &["slot"], 1, "h", 9).is_ok());
    let missing = shard_schema_result(
        DescribeOutcome::Rows(rows()),
        "t",
        &["slot", "err", "memo"],
        1,
        "h",
        9,
    );
    assert_eq!(
        missing.err().unwrap().message(),
        "Shard 1 h:9 table t missing columns: err, memo"
    );
    assert_eq!(
        shard_schema_result(DescribeOutcome::NoHandle, "t", &["slot"], 1, "h", 9)
            .err()
            .unwrap()
            .message(),
        "Shard 1 h:9 handle error"
    );
}

#[test]
fn a_query_that_took_too_long_is_ended() {
    let mut cleanup = QueryCleanup::armed("q1".to_string());
    let failed = after_shard_query_failure(
        "gsfa",
        Duration::from_secs(1),
        failure(),
        Some("timeout"),
        &mut cleanup,
    );
    assert_eq!(failed.error.message(), "ClickHouse operation 'gsfa' timed out after 1s");
    assert_eq!(failed.kill.as_deref(), Some("q1"));
    assert_eq!(cleanup.take(), None);
    let mut cleanup = QueryCleanup::armed("q2".to_string());
    let failed =
        after_shard_query_failure("gsfa", Duration::from_secs(1), failure(), None, &mut cleanup);
    assert_eq!(failed.error.message(), "broken");
    assert_eq!(failed.kill, None);
}

#[test]
fn reads_begin_only_when_they_can_be_ended() {
    assert_eq!(endpoint_capacity(0), 1);
    assert_eq!(endpoint_capacity(5), 5);
    assert!(require_ready(true).is_ok());
    assert_eq!(
        require_ready(false).err().unwrap().message(),
        "ClickHouse read cancellation is not initialized"
    );
    let guard = begin_read(Admission::Granted(7u8), None, "fresh".to_string()).unwrap();
    assert_eq!(guard.query_id, "fresh");
    assert_eq!(guard.permit, Some(7));
    assert!(!guard.submitted);
    let named =
        begin_read(Admission::Granted(7u8), Some("mine".to_string()), "fresh".to_string()).unwrap();
    assert_eq!(named.query_id, "mine");
    let late = begin_read::<u8>(Admission::TimedOut, None, "fresh".to_string());
    assert!(matches!(
        late,
        Err(ProcessingError::Timeout { context }) if context == "ClickHouse read admission"
    ));
    let closed = begin_read::<u8>(Admission::Closed, None, "fresh".to_string());
    assert!(matches!(
        closed,
        Err(ProcessingError::Database { context }) if context == "ClickHouse read admission closed"
    ));
}

#[test]
fn a_read_is_watched_under_the_name_it_is_given() {
    let mut guard = DisconnectGuard {
        query_id: "first".to_string(),
        permit: Some(1u8),
        submitted: false,
    };
    guard.with_setting("max_threads", "2");
    assert_eq!(guard.query_id, "first");
    guard.with_setting("query_id", "second");
    assert_eq!(guard.query_id, "second");
    guard.opened(true);
    assert!(guard.permit.is_some());
}

#[test]
fn a_cursor_that_failed_is_not_read_again() {
    let guard = || DisconnectGuard { query_id: "q".to_string(), permit: Some(1u8), submitted: true };
    let mut cursor = ReadCursorState { open: true, guard: Some(guard()) };
    assert!(cursor.may_read().is_ok());
    assert!(cursor.observe(CursorEvent::Row).is_none());
    assert!(cursor.open);
    let abandoned = cursor.observe(CursorEvent::Failed).unwrap();
    assert_eq!(abandoned.query_id, "q");
    assert_eq!(
        cursor.may_read().err().unwrap().message(),
        "read cursor already failed"
    );
    let mut cursor = ReadCursorState { open: true, guard: Some(guard()) };
    assert!(cursor.observe(CursorEvent::End).is_none());
}

#[test]
fn block_responses_are_weighed_and_counted() {
    assert!(!enabled(0));
    assert!(enabled(1));
    assert_eq!(response_weight(12), 12);
    assert_eq!(response_weight(u32::MAX as usize + 5), u32::MAX);
    assert_eq!(CacheAccess::of_lookup(true).label(), "hit");
    assert_eq!(CacheAccess::of_lookup(false).label(), "miss");
    assert_eq!(CacheAccess::of_insert(true).label(), "insert");
    assert_eq!(CacheAccess::of_insert(false).label(), "coalesced");
}

#[test]
fn each_way_to_a_history_has_its_query() {
    let key = [9u8; 32];
    let mut c = direct_client(RoutingTransport::Tcp);
    c.gsfa_router = Some(GsfaShardRouter {
        local_table: "default.gsfa_local".to_string(),
        query_timeout: Duration::from_secs(1),
    });
    c.bucket_moduli.gsfa = 16;
    c.bucket_moduli.gsfa_hot = 8;
    let ask = |c: &ClickHouseClient, route: GsfaRoute| c.gsfa_request(route, &key, 5, None, None, "");
    match ask(&c, GsfaRoute::HotTcp).unwrap() {
        GsfaRequest::AllShards(sql) => {
            assert_eq!(sql, c.hot_gsfa_query_spec(&key, 5, None, None).to_query(""));
            assert!(sql.contains("default.gsfa_hot_local"));
        }
        other => panic!("{other:?}"),
    }
    let hash = ch_cityhash102::cityhash64(&key);
    match ask(&c, GsfaRoute::ShardHttp).unwrap() {
        GsfaRequest::Shard(shard, sql) => {
            assert_eq!(shard, (hash % 2) as usize);
            assert!(sql.contains("default.gsfa_local"));
            assert!(sql.contains(&format!("addr_bucket = {}", hash % 16)));
        }
        other => panic!("{other:?}"),
    }
    match ask(&c, GsfaRoute::Distributed).unwrap() {
        GsfaRequest::Distributed(sql) => {
            assert_eq!(sql, c.distributed_gsfa_query(&key, 5, None, None, ""));
        }
        other => panic!("{other:?}"),
    }
    c.shard_topology = None;
    assert_eq!(
        ask(&c, GsfaRoute::HotHttp).err().unwrap().message(),
        "GSFA hot routing requires shard topology discovery and validated shard-local hot tables"
    );
}

#[test]
fn a_row_counts_once_the_reply_has_ended() {
    let mut first = None;
    for row in [4, 5] {
        first = match first_row_next(first, RowReply::Row(row)) {
            FirstRowNext::ReadOn(kept) => kept,
            other => panic!("{other:?}"),
        };
    }
    assert_eq!(first, Some(4));
    assert!(matches!(
        first_row_next(first, RowReply::Failed(failure())),
        FirstRowNext::Fail(_)
    ));
    assert!(matches!(first_row_next(first, RowReply::End), FirstRowNext::Answer(Some(4))));
    assert!(matches!(first_row_next::<u8>(None, RowReply::End), FirstRowNext::Answer(None)));
}

#[test]
fn watched_reads_end_with_their_connection() {
    let settings = read_settings("q1");
    let pairs: Vec<(&str, &str)> =
        settings.iter().map(|(name, value)| (name.as_str(), value.as_str())).collect();
    assert_eq!(
        pairs,
        vec![
            ("query_id", "q1"),
            ("readonly", "2"),
            ("cancel_http_readonly_queries_on_client_close", "1"),
        ]
    );
}
