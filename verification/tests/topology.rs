//! The shards of a cluster and their addresses.
use superbank::clickhouse::client::tcp_access_result;
use superbank::clickhouse::sharding::{
    bucket_modulus_from_describe_rows, derive_local_table_name, escape_clickhouse_string,
    pick_replica, BucketColumn, ClickHouseTopologyConfig, ClickHouseTopologyNode, ClusterRow,
    DescribeTableRow,
};
use superbank::clickhouse::slots::normalize_slots;
use superbank::clickhouse::topology::{
    build_cluster_query, build_topology, cluster_candidates, configured_candidates,
    http_port_from, shard_http_port, ShardCandidate, TopologySource,
};
use superbank::clickhouse::urls::{tcp_address, TcpPoolSizing};
use superbank::lists::distinct_keys;
use superbank::text::{dec_signed_string, dec_string, hex_upper_string, parse_u64_text};
use superbank::time::Duration;

fn replica(shard_num: u32, replica_num: u32, host: &str, weight: u32) -> ClusterRow {
    ClusterRow {
        shard_num,
        shard_weight: weight,
        replica_num,
        host_name: host.to_string(),
        host_address: String::new(),
        port: 9000,
        is_local: 0,
    }
}

fn candidate(shard_num: u32, weight: u32, host: Option<&str>) -> ShardCandidate {
    ShardCandidate {
        shard_num,
        shard_weight: weight,
        host: host.map(str::to_string),
        tcp_port: 9000,
    }
}

fn node(shard_id: u32, hostname: &str, ip: &str) -> ClickHouseTopologyNode {
    ClickHouseTopologyNode {
        shard_id,
        hostname: hostname.to_string(),
        ip_address: ip.to_string(),
        tcp_port: 9440,
        shard_weight: 3,
    }
}

fn cluster() -> TopologySource {
    TopologySource::Cluster { cluster: "main".to_string() }
}

fn config() -> TopologySource {
    TopologySource::Config { path: "t.yaml".to_string() }
}

fn refused(source: TopologySource, candidates: Vec<ShardCandidate>) -> String {
    match build_topology(&source, "main", "http://localhost:8123", 8123, &candidates) {
        Err(error) => error.message(),
        Ok(_) => panic!("an error was expected"),
    }
}

#[test]
fn a_topology_has_an_address_for_each_shard() {
    let shards = vec![candidate(1, 2, Some("10.0.0.1")), candidate(2, 3, Some("db.example"))];
    let t = build_topology(&cluster(), "main", "http://user@localhost:1/path?x=1", 8124, &shards)
        .unwrap();
    assert_eq!(t.total_weight, 5);
    assert_eq!(t.weights, vec![2, 3]);
    assert_eq!(t.shards[0].host, "10.0.0.1");
    assert_eq!(t.shards[0].shard_num, 1);
    assert_eq!(t.shards[0].tcp_port, 9000);
    assert!(t.shards[0].http_url.contains("10.0.0.1:8124"));
    assert!(t.shards[1].http_url.contains("db.example:8124"));
    assert_eq!(t.shard_for_hash(6).shard_num, 1);
    assert_eq!(t.shard_for_hash(7).shard_num, 2);
}

#[test]
fn wrong_shards_are_refused() {
    assert_eq!(
        refused(cluster(), vec![candidate(4, 0, Some("h"))]),
        "Shard 4 has zero weight in 'main'"
    );
    assert_eq!(
        refused(config(), vec![candidate(4, 0, Some("h"))]),
        "Shard 4 has zero weight in ClickHouse topology config 't.yaml'"
    );
    assert_eq!(
        refused(cluster(), vec![candidate(4, 1, None)]),
        "Shard 4 has empty host_name/host_address in 'main'"
    );
    assert_eq!(refused(cluster(), Vec::new()), "Total shard weight is zero");
    assert!(refused(cluster(), vec![candidate(4, 1, Some("a b"))]).contains("a b"));
}

#[test]
fn the_port_of_shards_is_configured_or_that_of_the_server() {
    assert_eq!(shard_http_port("http://localhost:8123", None).unwrap(), 8123);
    assert_eq!(shard_http_port("http://localhost:8123", Some(7)).unwrap(), 7);
    assert_eq!(
        shard_http_port("not a url", Some(7)).err().unwrap().message(),
        "Invalid CLICKHOUSE_URL 'not a url'"
    );
    assert_eq!(http_port_from("u", Some(Some(5)), None).unwrap(), 5);
    assert_eq!(
        http_port_from("u", Some(None), None).err().unwrap().message(),
        "CLICKHOUSE_URL has no port and CLICKHOUSE_SHARD_HTTP_PORT is not set"
    );
    assert_eq!(
        http_port_from("u", None, Some(5)).err().unwrap().message(),
        "Invalid CLICKHOUSE_URL 'u'"
    );
}

#[test]
fn one_replica_stands_for_its_shard() {
    let mut rows = vec![
        replica(1, 2, "b", 1),
        replica(1, 1, "a", 1),
        replica(2, 1, "c", 1),
    ];
    assert_eq!(pick_replica(&rows[0..2]).unwrap().host_name, "a");
    rows[0].is_local = 1;
    assert_eq!(pick_replica(&rows[0..2]).unwrap().host_name, "b");
    assert!(pick_replica(&[]).is_none());
    let shards = cluster_candidates(&rows, "main").unwrap();
    let hosts: Vec<&str> = shards.iter().map(|s| s.host.as_deref().unwrap()).collect();
    assert_eq!(hosts, vec!["b", "c"]);
    assert_eq!(
        cluster_candidates(&Vec::new(), "main").err().unwrap().message(),
        "No shards found in system.clusters for 'main'"
    );
}

#[test]
fn configured_shards_are_reached_by_their_address() {
    let nodes = vec![node(2, "b", "10.0.0.2"), node(1, "a", "10.0.0.1"), node(2, "c", "10.0.0.3")];
    let shards = configured_candidates(&ClickHouseTopologyConfig { nodes });
    let seen: Vec<(u32, &str)> =
        shards.iter().map(|s| (s.shard_num, s.host.as_deref().unwrap())).collect();
    assert_eq!(seen, vec![(1, "10.0.0.1"), (2, "10.0.0.2")]);
    assert_eq!(shards[0].tcp_port, 9440);
    assert_eq!(shards[0].shard_weight, 3);
}

#[test]
fn shards_are_looked_up_by_the_name_of_their_cluster() {
    assert!(build_cluster_query("it's").contains("WHERE cluster = 'it''s'"));
    assert_eq!(escape_clickhouse_string("a'b'"), "a''b''");
}

#[test]
fn addresses_with_colons_are_bracketed() {
    assert_eq!(tcp_address("h", 9000), "tcp://h:9000");
    assert_eq!(tcp_address("::1", 9000), "tcp://[::1]:9000");
    assert_eq!(tcp_address("[::1]", 9000), "tcp://[::1]:9000");
    assert_eq!(TcpPoolSizing { min: 0, max: 0 }.bounded(), TcpPoolSizing { min: 0, max: 1 });
    assert_eq!(TcpPoolSizing { min: 5, max: 2 }.bounded(), TcpPoolSizing { min: 2, max: 2 });
    assert_eq!(TcpPoolSizing { min: 2, max: 9 }.bounded(), TcpPoolSizing { min: 2, max: 9 });
}

#[test]
fn the_first_unreachable_shards_are_named() {
    assert!(tcp_access_result(&Vec::new(), 3).is_ok());
    let mut failures =
        vec![("a".to_string(), 1, "refused".to_string()), ("b".to_string(), 2, "slow".to_string())];
    assert_eq!(
        tcp_access_result(&failures, 3).err().unwrap().message(),
        "ClickHouse TCP access check failed for 2 of 3 shards: a:1 (refused), b:2 (slow)"
    );
    failures.push(("c".to_string(), 3, "slow".to_string()));
    failures.push(("d".to_string(), 4, "slow".to_string()));
    assert_eq!(
        tcp_access_result(&failures, 9).err().unwrap().message(),
        "ClickHouse TCP access check failed for 4 of 9 shards: a:1 (refused), b:2 (slow), c:3 (slow)"
    );
}

#[test]
fn tables_of_shards_have_a_name_of_their_own() {
    let derived = |name: &str| derive_local_table_name(name, None);
    assert_eq!(derived("default.gsfa").as_deref(), Some("default.gsfa_local"));
    assert_eq!(
        derive_local_table_name("default.gsfa", Some("x.y".to_string())).as_deref(),
        Some("x.y")
    );
}

#[test]
fn wrong_bucket_columns_are_reported() {
    let row = |kind: &str, expression: &str| {
        vec![DescribeTableRow {
            name: "addr_bucket".to_string(),
            default_type: kind.to_string(),
            default_expression: expression.to_string(),
        }]
    };
    let text = |rows: Vec<DescribeTableRow>| {
        bucket_modulus_from_describe_rows(&rows, "t", BucketColumn::Address)
            .err()
            .unwrap()
            .message()
    };
    assert_eq!(text(Vec::new()), "table t missing bucket column addr_bucket");
    assert_eq!(
        text(row("DEFAULT", "cityHash64(address) % 32")),
        "table t bucket column addr_bucket must be MATERIALIZED, found 'DEFAULT'"
    );
    assert_eq!(
        text(row("MATERIALIZED", "sipHash64(address) % 32")),
        "table t bucket column addr_bucket has unsupported expression 'sipHash64(address) % 32'"
    );
    assert_eq!(
        text(row("MATERIALIZED", "cityHash64(address) % n")),
        "table t bucket column addr_bucket has invalid modulus expression 'cityHash64(address) % n'"
    );
    assert_eq!(
        text(row("MATERIALIZED", "cityHash64(address) % 99999999999999999999")),
        "table t bucket column addr_bucket has invalid modulus '99999999999999999999'"
    );
    assert_eq!(
        text(row("MATERIALIZED", "cityHash64(address) % 257")),
        "table t bucket column addr_bucket modulus 257 out of supported range 1..=256"
    );
}

#[test]
fn numbers_and_bytes_are_written_and_read() {
    for n in [0, 7, 10, 12_345, u64::MAX] {
        assert_eq!(dec_string(n), n.to_string());
        assert_eq!(parse_u64_text(&dec_string(n)), Some(n));
    }
    assert_eq!(parse_u64_text("18446744073709551616"), None);
    assert_eq!(parse_u64_text("+5"), Some(5));
    assert_eq!(parse_u64_text(""), None);
    assert_eq!(parse_u64_text("+"), None);
    assert_eq!(dec_signed_string(i64::MIN), i64::MIN.to_string());
    assert_eq!(dec_signed_string(-40), "-40");
    assert_eq!(hex_upper_string(&[0, 0x9a, 0xff]), "009AFF");
}

#[test]
fn lists_keep_first_occurrences() {
    assert_eq!(
        distinct_keys(&[[2; 32], [1; 32], [2; 32], [3; 32]]),
        vec![[2; 32], [1; 32], [3; 32]]
    );
    assert_eq!(normalize_slots(vec![3, 1, 3, 2]), vec![1, 2, 3]);
}

#[test]
fn lengths_of_time_are_compared_and_written() {
    let half = Duration::from_millis(500);
    let long = Duration::from_millis(1_700);
    assert_eq!(half.plus(long), Duration { secs: 2, nanos: 200_000_000 });
    assert_eq!(half.min(long), half);
    assert!(half.is_shorter(long));
    assert!(!long.is_shorter(long));
    assert_eq!(long.as_millis(), 1_700);
    assert_eq!(long.debug_string(), "1.7s");
    assert_eq!(Duration { secs: 0, nanos: 1_500 }.debug_string(), "1.5µs");
}
