//! Signatures: their buckets, their queries and the cache of their slots.
use superbank::clickhouse::cache::{CacheStart, Entry, SignatureSlotCache};
use superbank::clickhouse::signatures::{
    bucket_signature, bucket_signatures, build_signature_filter, build_statuses_query,
    collect_statuses, group_by_bucket, map_status_row, parse_signature,
    primary_signature_status_settings, AfterLookupFailure, BucketedSignature, LookupRoute,
    SignatureBucket, StatusesFailure, StatusesReply, StatusesRequest,
};
use superbank::clickhouse::client::{
    ClickHouseClient, ClickHouseClientOptions, ClientEnvironment,
};
use superbank::clickhouse::sharding::{
    RoutingPolicy, RoutingScope, RoutingTransport, ShardTarget, ShardTopology,
};
use superbank::clickhouse::types::{SignatureSlot, SignatureStatusRecord};
use superbank::processing::ProcessingError;
use superbank::time::Duration;

fn environment() -> ClientEnvironment {
    ClientEnvironment {
        transaction_table: None,
        signature_table: None,
        blocks_metadata_table: None,
        gsfa_table: None,
        signature_statuses_table: None,
        token_owner_activity_table: None,
        disable_query_settings: false,
    }
}

fn client(transport: RoutingTransport, scope: RoutingScope) -> ClickHouseClient {
    ClickHouseClient::new(
        "http://localhost:8123",
        "default",
        "default",
        "",
        ClickHouseClientOptions::new(
            RoutingPolicy { transport, scope },
            None,
            Vec::new(),
            "default.gsfa_hot".to_string(),
            "default.gsfa_hot_local".to_string(),
        ),
        environment(),
    )
}

fn topology(weights: Vec<u64>) -> ShardTopology {
    ShardTopology {
        total_weight: weights.iter().sum(),
        shards: (0..weights.len())
            .map(|n| ShardTarget {
                shard_num: n as u32 + 1,
                host: format!("host{n}"),
                tcp_port: 9000,
                http_url: format!("http://host{n}:8123/"),
            })
            .collect(),
        weights,
    }
}

fn signatures(count: usize) -> Vec<String> {
    (0..count)
        .map(|i| {
            let mut bytes = [0u8; 64];
            bytes[..8].copy_from_slice(&(i as u64).to_le_bytes());
            bs58::encode(bytes).into_string()
        })
        .collect()
}

#[test]
fn remaining_deadline_is_not_rounded_up_or_restarted() {
    let sql = primary_signature_status_settings("", 2, Duration::from_millis(125)).unwrap();
    assert!(sql.contains("max_execution_time=0.125,"));
    assert!(sql.contains("max_execution_time_leaf=0.125,"));
}

#[test]
fn exhausted_or_submillisecond_budget_never_becomes_an_unlimited_query() {
    for remaining in [
        Duration { secs: 0, nanos: 0 },
        Duration { secs: 0, nanos: 1 },
        Duration { secs: 0, nanos: 999_000 },
    ] {
        assert!(primary_signature_status_settings("", 2, remaining).is_err());
    }
    let sql = primary_signature_status_settings("", 2, Duration::from_millis(1)).unwrap();
    assert!(sql.contains("max_execution_time=0.001,"));
    assert!(sql.contains("timeout_overflow_mode_leaf='throw'"));
    assert!(sql.contains("timeout_before_checking_execution_speed=0"));
}

#[test]
fn primary_settings_bound_the_use_of_the_server() {
    let sql =
        primary_signature_status_settings("SETTINGS x=1", 2, Duration::from_millis(12_034)).unwrap();
    assert_eq!(
        sql,
        "SETTINGS x=1, max_threads=2, max_threads_for_indexes=2, use_hedged_requests=0, max_parallel_replicas=1, max_execution_time=12.034, max_execution_time_leaf=12.034, timeout_overflow_mode='throw', timeout_overflow_mode_leaf='throw', timeout_before_checking_execution_speed=0"
    );
    assert!(primary_signature_status_settings("", 2, Duration::from_secs(1))
        .unwrap()
        .starts_with("SETTINGS max_threads=2,"));
}

#[test]
fn signatures_are_bucketed_by_their_hash() {
    let bytes = [7u8; 64];
    let entry = bucket_signature(&bytes, 32);
    let hash = ch_cityhash102::cityhash64(&bytes);
    assert_eq!(entry.hash, hash);
    assert_eq!(entry.bucket, hash % 32);
    assert_eq!(
        entry.literal,
        format!("toFixedString(unhex('{}'), 64)", "07".repeat(64))
    );
}

#[test]
fn malformed_signatures_are_reported() {
    match parse_signature("0OIl") {
        Err(ProcessingError::Deserialization { context }) => {
            assert_eq!(context, "Invalid signature")
        }
        _ => panic!("an error was expected"),
    }
    match parse_signature(&bs58::encode([1u8; 10]).into_string()) {
        Err(error) => assert_eq!(
            error.message(),
            "Invalid signature length 10 (expected 64 bytes)"
        ),
        _ => panic!("an error was expected"),
    }
    let text = bs58::encode([9u8; 64]).into_string();
    assert_eq!(parse_signature(&text).unwrap(), vec![9u8; 64]);
    let mut list = signatures(2);
    list.push("bad!".to_string());
    assert!(bucket_signatures(&list, 32).is_err());
    assert_eq!(bucket_signatures(&list[..2], 32).unwrap().len(), 2);
}

fn literal(bucket: u64, text: &str) -> BucketedSignature {
    BucketedSignature {
        hash: bucket,
        bucket,
        literal: text.to_string(),
    }
}

#[test]
fn signatures_are_grouped_by_ascending_bucket() {
    let groups = group_by_bucket(&vec![
        literal(5, "a"),
        literal(2, "b"),
        literal(5, "c"),
        literal(9, "d"),
    ]);
    let shape: Vec<(u64, Vec<String>)> = groups
        .into_iter()
        .map(|group| (group.bucket, group.literals))
        .collect();
    assert_eq!(
        shape,
        vec![
            (2, vec!["b".to_string()]),
            (5, vec!["a".to_string(), "c".to_string()]),
            (9, vec!["d".to_string()]),
        ]
    );
}

#[test]
fn signature_filters_are_chunked() {
    let groups = vec![
        SignatureBucket {
            bucket: 1,
            literals: vec!["a".to_string()],
        },
        SignatureBucket {
            bucket: 2,
            literals: vec!["b".to_string(), "c".to_string(), "d".to_string()],
        },
    ];
    assert_eq!(
        build_signature_filter(&groups, 2),
        "(sig_bucket = 1 AND signature = a) OR (sig_bucket = 2 AND signature IN (b,c)) OR (sig_bucket = 2 AND signature = d)"
    );
    assert_eq!(
        build_signature_filter(&groups, 100),
        "(sig_bucket = 1 AND signature = a) OR (sig_bucket = 2 AND signature IN (b,c,d))"
    );
    assert_eq!(
        build_signature_filter(&groups, 0),
        "(sig_bucket = 1 AND signature = a) OR (sig_bucket = 2 AND signature = b) OR (sig_bucket = 2 AND signature = c) OR (sig_bucket = 2 AND signature = d)"
    );
    assert_eq!(build_signature_filter(&Vec::new(), 5), "");
}

#[test]
fn status_queries_read_the_newest_outcome_of_each_signature() {
    let entries = vec![literal(3, "x")];
    let sql = build_statuses_query(LookupRoute::Distributed, "default.signatures", &entries, 10, "S");
    assert_eq!(
        sql.split_whitespace().collect::<Vec<_>>().join(" "),
        "SELECT signature, tupleElement(latest, 1) AS slot, tupleElement(latest, 2) AS err FROM ( SELECT signature, argMax(tuple(slot, err), tuple(slot, slot_idx)) AS latest FROM default.signatures PREWHERE (sig_bucket = 3 AND signature = x) GROUP BY signature ) S"
    );
    assert!(build_statuses_query(LookupRoute::ShardTcp, "t", &entries, 10, "")
        .contains("base58Encode(signature) AS signature"));
    assert!(!build_statuses_query(LookupRoute::ShardHttp, "t", &entries, 10, "")
        .contains("base58Encode"));
}

#[test]
fn a_maximum_batch_of_signatures_is_one_distributed_query() {
    let client = client(RoutingTransport::Http, RoutingScope::Distributed);
    assert_eq!(client.first_lookup_route(), LookupRoute::Distributed);
    match client
        .statuses_request(LookupRoute::Distributed, &signatures(256), "")
        .unwrap()
    {
        StatusesRequest::Distributed(sql) => assert_eq!(sql.matches("unhex(").count(), 256),
        _ => panic!("one query was expected"),
    }
    assert!(matches!(
        client.statuses_request(LookupRoute::Distributed, &[], ""),
        Ok(StatusesRequest::Nothing)
    ));
    assert!(client
        .statuses_request(LookupRoute::Distributed, &["?".to_string()], "")
        .is_err());
}

#[test]
fn signatures_go_to_the_shards_that_hold_them() {
    let mut client = client(RoutingTransport::Tcp, RoutingScope::ShardDirect);
    client.shard_topology = Some(topology(vec![1, 1, 2]));
    client.signatures_local_table = Some("default.signatures_local".to_string());
    assert_eq!(client.first_lookup_route(), LookupRoute::ShardTcp);
    let list = signatures(40);
    let queries = match client.statuses_request(LookupRoute::ShardTcp, &list, "").unwrap() {
        StatusesRequest::Shards(queries) => queries,
        _ => panic!("queries for shards were expected"),
    };
    let shards: Vec<usize> = queries.iter().map(|(shard, _)| *shard).collect();
    assert!(shards.windows(2).all(|pair| pair[0] < pair[1]));
    let total: usize = queries.iter().map(|(_, sql)| sql.matches("unhex(").count()).sum();
    assert_eq!(total, 40);
    for signature in &list {
        let bytes = bs58::decode(signature).into_vec().unwrap();
        let hex: String = bytes.iter().map(|byte| format!("{byte:02X}")).collect();
        let rest = ch_cityhash102::cityhash64(&bytes) % 4;
        let expected = if rest < 1 { 0 } else if rest < 2 { 1 } else { 2 };
        let (shard, _) = queries.iter().find(|(_, sql)| sql.contains(&hex)).unwrap();
        assert_eq!(*shard, expected);
    }
}

#[test]
fn the_slot_of_a_signature_is_asked_on_its_shard() {
    let mut client = client(RoutingTransport::Http, RoutingScope::ShardDirect);
    let bytes = [5u8; 64];
    let (shard, sql) = client.signature_slot_request(LookupRoute::Distributed, &bytes, "S");
    assert!(shard.is_none());
    assert!(sql.contains("FROM default.signatures"));
    assert!(sql.contains("ORDER BY slot DESC, slot_idx DESC, signature"));
    client.shard_topology = Some(topology(vec![1]));
    client.signatures_local_table = Some("default.signatures_local".to_string());
    assert_eq!(client.first_lookup_route(), LookupRoute::ShardHttp);
    let (shard, sql) = client.signature_slot_request(LookupRoute::ShardHttp, &bytes, "S");
    assert_eq!(shard, Some(0));
    assert!(sql.contains("FROM default.signatures_local"));
    assert!(!sql.contains("slot_idx DESC, signature"));
}

#[test]
fn lookups_fall_back_to_the_distributed_table() {
    assert_eq!(
        LookupRoute::ShardTcp.after_failure(true),
        AfterLookupFailure::Try(LookupRoute::ShardHttp)
    );
    assert_eq!(
        LookupRoute::ShardTcp.after_failure(false),
        AfterLookupFailure::Report
    );
    assert_eq!(
        LookupRoute::ShardHttp.after_failure(false),
        AfterLookupFailure::Try(LookupRoute::Distributed)
    );
    assert_eq!(
        LookupRoute::Distributed.after_failure(true),
        AfterLookupFailure::Report
    );
}

fn status(slot: u64) -> SignatureStatusRecord<String> {
    SignatureStatusRecord {
        signature: format!("s{slot}"),
        slot,
        err: None,
    }
}

#[test]
fn the_replies_of_shards_are_put_together() {
    let all = collect_statuses(vec![
        StatusesReply::Records(vec![status(1), status(2)]),
        StatusesReply::Records(vec![status(3)]),
    ])
    .unwrap()
    .unwrap();
    assert_eq!(all.iter().map(|r| r.slot).collect::<Vec<_>>(), vec![1, 2, 3]);
    assert!(collect_statuses(vec![
        StatusesReply::Records(vec![status(1)]),
        StatusesReply::Fallback,
        StatusesReply::Error(ProcessingError::database_msg("late".to_string())),
    ])
    .unwrap()
    .is_none());
    assert_eq!(
        collect_statuses::<String>(vec![
            StatusesReply::Error(ProcessingError::database_msg("first".to_string())),
            StatusesReply::Fallback,
        ])
        .unwrap_err()
        .message(),
        "first"
    );
}

#[test]
fn disconnect_http_settings_are_exclusive_to_primary_distributed_http_status_reads() {
    let client = |transport: RoutingTransport, scope: RoutingScope| {
        ClickHouseClient::new(
            "http://localhost:8123",
            "default",
            "default",
            "",
            ClickHouseClientOptions::new(
                RoutingPolicy { transport, scope },
                None,
                Vec::new(),
                "default.gsfa_hot".to_string(),
                "default.gsfa_hot_local".to_string(),
            ),
            environment(),
        )
    };
    let primary = client(RoutingTransport::Http, RoutingScope::Distributed);
    let protected = primary.signature_status_http_settings(false, Some("protected"));
    assert_eq!(
        protected,
        vec![
            ("query_id".to_string(), "protected".to_string()),
            ("readonly".to_string(), "2".to_string()),
            ("cancel_http_readonly_queries_on_client_close".to_string(), "1".to_string()),
        ]
    );
    assert_eq!(primary.signature_status_http_settings(false, None).len(), 2);
    let shard_direct = client(RoutingTransport::Http, RoutingScope::ShardDirect);
    let tcp_policy = client(RoutingTransport::Tcp, RoutingScope::Distributed);
    for (label, settings) in [
        ("local_cache", primary.signature_status_http_settings(true, Some("local_cache"))),
        ("shard_direct", shard_direct.signature_status_http_settings(false, Some("shard_direct"))),
        ("tcp_policy", tcp_policy.signature_status_http_settings(false, Some("tcp_policy"))),
    ] {
        assert_eq!(settings, vec![("query_id".to_string(), label.to_string())], "{label}");
    }
}

#[test]
fn the_failure_of_a_shard_is_reported_or_avoided() {
    let failed = |transient: bool| StatusesFailure::Query {
        transient,
        error: ProcessingError::database_msg("broken".to_string()),
    };
    let row = || StatusesFailure::Row(ProcessingError::database_msg("unreadable".to_string()));
    let tcp = LookupRoute::ShardTcp;
    let http = LookupRoute::ShardHttp;
    assert!(matches!(tcp.failed_statuses::<String>(failed(true)), StatusesReply::Fallback));
    assert!(matches!(tcp.failed_statuses::<String>(StatusesFailure::Task), StatusesReply::Fallback));
    match tcp.failed_statuses::<String>(failed(false)) {
        StatusesReply::Error(error) => assert_eq!(error.message(), "broken"),
        other => panic!("{other:?}"),
    }
    match tcp.failed_statuses::<String>(row()) {
        StatusesReply::Error(error) => assert_eq!(error.message(), "unreadable"),
        other => panic!("{other:?}"),
    }
    assert!(matches!(http.failed_statuses::<String>(failed(false)), StatusesReply::Fallback));
    assert!(matches!(http.failed_statuses::<String>(row()), StatusesReply::Fallback));
}

#[test]
fn rows_with_outcomes_name_their_signature() {
    let row = map_status_row(&[3u8; 64], 42, None, Some("ignored"));
    assert_eq!(row.signature, bs58::encode([3u8; 64]).into_string());
    assert_eq!(row.slot, 42);
    assert!(row.err.is_none());
    let failed = map_status_row(&[3u8; 64], 42, Some("raw".to_string()), Some("parsed"));
    assert_eq!(failed.err, Some("parsed"));
}

#[test]
fn signature_slot_cache_singleflight() {
    let mut cache = SignatureSlotCache::new(Duration::from_secs(60), Duration::from_secs(1), 128);
    let key = [9u8; 64];
    let now = Duration::from_secs(1000);

    let leader = match cache.get_or_start(key, now) {
        CacheStart::Leader(leader) => leader,
        _ => panic!("expected leader"),
    };
    let ticket = leader.ticket;
    match cache.get_or_start(key, now) {
        CacheStart::Wait(wait) => assert_eq!(wait, ticket),
        _ => panic!("expected wait"),
    }

    cache.finish_leader(
        leader,
        Some(SignatureSlot {
            slot: 42,
            slot_idx: 7,
        }),
        now,
        now,
    );

    let slot = match cache.get_or_start(key, now) {
        CacheStart::Hit(value) => value.expect("slot present"),
        _ => panic!("expected hit"),
    };
    assert_eq!(slot.slot, 42);
    assert_eq!(slot.slot_idx, 7);
}

#[test]
fn dropped_signature_slot_leader_wakes_waiters_and_allows_retry() {
    let mut cache = SignatureSlotCache::new(Duration::from_secs(60), Duration::from_secs(1), 128);
    let key = [7u8; 64];
    let now = Duration::from_secs(1000);

    let leader = match cache.get_or_start(key, now) {
        CacheStart::Leader(leader) => leader,
        _ => panic!("expected cache leader"),
    };
    assert!(matches!(cache.get_or_start(key, now), CacheStart::Wait(_)));
    cache.remove_in_flight(leader);

    let retry_leader = match cache.get_or_start(key, now) {
        CacheStart::Leader(leader) => leader,
        _ => panic!("expected a new leader after cancellation"),
    };
    cache.remove_in_flight(retry_leader);
    assert!(cache.entries.is_empty());
}

#[test]
fn signature_slot_cache_expires() {
    let mut cache = SignatureSlotCache::new(
        Duration::from_millis(50),
        Duration::from_millis(50),
        128,
    );
    let key = [1u8; 64];
    let start = Duration::from_secs(1000);

    let leader = match cache.get_or_start(key, start) {
        CacheStart::Leader(leader) => leader,
        _ => panic!("expected leader"),
    };
    cache.finish_leader(leader, None, start, start);

    assert!(matches!(
        cache.get_or_start(key, start),
        CacheStart::Hit(None)
    ));
    assert!(matches!(
        cache.get_or_start(key, Duration::from_millis(1_000_080)),
        CacheStart::Leader(_)
    ));
}

#[test]
fn a_late_leader_does_not_end_a_later_lookup() {
    let mut cache = SignatureSlotCache::new(Duration::from_secs(60), Duration::from_secs(1), 128);
    let key = [1u8; 64];
    let now = Duration::from_secs(1);
    let first = match cache.get_or_start(key, now) {
        CacheStart::Leader(leader) => leader,
        _ => panic!("expected leader"),
    };
    let copy = superbank::clickhouse::cache::SignatureSlotCacheLeader {
        key,
        ticket: first.ticket,
    };
    cache.remove_in_flight(first);
    let second = match cache.get_or_start(key, now) {
        CacheStart::Leader(leader) => leader,
        _ => panic!("expected leader"),
    };
    assert_ne!(second.ticket, copy.ticket);
    cache.finish_leader(copy, None, now, now);
    assert!(matches!(cache.get_or_start(key, now), CacheStart::Wait(_)));
}

#[test]
fn a_full_cache_keeps_lookups_that_are_under_way() {
    let mut cache = SignatureSlotCache::new(Duration::from_secs(60), Duration::from_secs(60), 2);
    let now = Duration::from_secs(1);
    let mut leaders = Vec::new();
    for n in 0..4u8 {
        match cache.get_or_start([n; 64], now) {
            CacheStart::Leader(leader) => leaders.push(leader),
            _ => panic!("expected leader"),
        }
    }
    let last = leaders.pop().unwrap();
    for leader in leaders {
        cache.finish_leader(leader, None, now, now);
    }
    assert_eq!(cache.entries.len(), 2);
    assert_eq!(cache.entries[1].key, [3u8; 64]);
    assert_eq!(
        cache.entries[1].entry,
        Entry::InFlight {
            ticket: last.ticket
        }
    );
    cache.finish_leader(last, None, Duration::from_secs(62), Duration::from_secs(62));
    assert_eq!(cache.entries.len(), 2);
}

#[test]
fn expired_entries_go_first_from_a_full_cache() {
    let mut cache = SignatureSlotCache::new(Duration::from_secs(10), Duration::from_secs(10), 1);
    for (n, at) in [(0u8, 0u64), (1u8, 20u64)] {
        let now = Duration::from_secs(at);
        match cache.get_or_start([n; 64], now) {
            CacheStart::Leader(leader) => cache.finish_leader(leader, None, now, now),
            _ => panic!("expected leader"),
        }
    }
    assert_eq!(cache.entries.len(), 1);
    assert_eq!(cache.entries[0].key, [1u8; 64]);
}

#[test]
fn the_environment_configures_the_cache() {
    let cache = SignatureSlotCache::from_env(None, None, None);
    assert_eq!(cache.capacity, 50_000);
    assert_eq!(cache.ttl_found, Duration::from_secs(6 * 60 * 60));
    assert_eq!(cache.ttl_missing, Duration::from_secs(1));
    let cache = SignatureSlotCache::from_env(
        Some(" 7 ".to_string()),
        Some("x".to_string()),
        Some("+9".to_string()),
    );
    assert_eq!(cache.capacity, 7);
    assert_eq!(cache.ttl_found, Duration::from_secs(21_600));
    assert_eq!(cache.ttl_missing, Duration::from_secs(9));
    assert_eq!(
        SignatureSlotCache::from_env(Some("0".to_string()), None, None).capacity,
        1
    );
    assert_eq!(
        SignatureSlotCache::from_env(Some("99999999".to_string()), None, None).capacity,
        1_000_000
    );
}
