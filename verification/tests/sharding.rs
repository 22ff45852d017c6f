//! Shards: their weights, their hosts, their configuration and their buckets.
use serde_yaml::Value;
use superbank::clickhouse::sharding::{
    bucket_modulus_from_describe_rows, resolve_host, select_weighted_index,
    selected_configured_shard_nodes, validate_clickhouse_topology_config, BucketColumn,
    ClickHouseTopologyConfig, ClickHouseTopologyNode, ClusterRow, DescribeTableRow,
};
use superbank::processing::ProcessingError;

fn number(node: &Value, key: &str) -> u64 {
    node.get(key).and_then(Value::as_u64).expect(key)
}

fn text(node: &Value, key: &str) -> String {
    node.get(key).and_then(Value::as_str).expect(key).to_string()
}

fn parse_clickhouse_topology_config(
    contents: &str,
) -> Result<ClickHouseTopologyConfig, ProcessingError> {
    let document: Value = serde_yaml::from_str(contents).expect("a document");
    let nodes = document.get("nodes").and_then(Value::as_sequence).expect("nodes");
    let config = ClickHouseTopologyConfig {
        nodes: nodes
            .iter()
            .map(|node| ClickHouseTopologyNode {
                shard_id: number(node, "shard-id") as u32,
                hostname: text(node, "hostname"),
                ip_address: text(node, "ip-address"),
                tcp_port: number(node, "tcp-port") as u16,
                shard_weight: number(node, "shard-weight") as u32,
            })
            .collect(),
    };
    validate_clickhouse_topology_config(&config)?;
    Ok(config)
}

#[test]
fn weighted_selection_respects_shard_weights() {
    let weights = vec![1_u64, 2, 1];
    let total = 4_u64;

    assert_eq!(select_weighted_index(&weights, total, 0), 0);
    assert_eq!(select_weighted_index(&weights, total, 1), 1);
    assert_eq!(select_weighted_index(&weights, total, 2), 1);
    assert_eq!(select_weighted_index(&weights, total, 3), 2);

    assert_eq!(select_weighted_index(&weights, total, 4), 0);
    assert_eq!(select_weighted_index(&weights, total, 5), 1);
    assert_eq!(select_weighted_index(&weights, total, 6), 1);
    assert_eq!(select_weighted_index(&weights, total, 7), 2);
}

#[test]
fn resolve_host_prefers_host_name_over_host_address() {
    let row = ClusterRow {
        shard_num: 1,
        shard_weight: 1,
        replica_num: 1,
        host_name: "ch-1.internal".to_string(),
        host_address: "10.0.0.1".to_string(),
        port: 9000,
        is_local: 0,
    };

    assert_eq!(resolve_host(&row).as_deref(), Some("ch-1.internal"));
}

#[test]
fn resolve_host_falls_back_to_host_address_when_host_name_missing() {
    let row = ClusterRow {
        shard_num: 1,
        shard_weight: 1,
        replica_num: 1,
        host_name: "".to_string(),
        host_address: "10.0.0.1".to_string(),
        port: 9000,
        is_local: 0,
    };

    assert_eq!(resolve_host(&row).as_deref(), Some("10.0.0.1"));
}

#[test]
fn resolve_host_returns_none_when_both_fields_empty() {
    let row = ClusterRow {
        shard_num: 1,
        shard_weight: 1,
        replica_num: 1,
        host_name: "".to_string(),
        host_address: "".to_string(),
        port: 9000,
        is_local: 0,
    };

    assert_eq!(resolve_host(&row), None);
}

#[test]
fn topology_config_rejects_empty_node_list() {
    let err =
        parse_clickhouse_topology_config("nodes: []").expect_err("empty nodes should fail");

    assert!(err.message().contains("at least one node"));
}

#[test]
fn topology_config_rejects_blank_hostnames() {
    let err = parse_clickhouse_topology_config(
        "\
nodes:
  - shard-id: 1
    hostname: '   '
    ip-address: 10.43.86.5
    tcp-port: 9000
    shard-weight: 1
",
    )
    .expect_err("blank hostname should fail");

    assert!(err.message().contains("blank hostname"));
}

#[test]
fn topology_config_rejects_duplicate_nodes() {
    let err = parse_clickhouse_topology_config(
        "\
nodes:
  - shard-id: 1
    hostname: ch-bhs1
    ip-address: 10.43.86.5
    tcp-port: 9000
    shard-weight: 1
  - shard-id: 1
    hostname: ch-bhs1
    ip-address: 10.43.86.5
    tcp-port: 9000
    shard-weight: 1
",
    )
    .expect_err("duplicate node should fail");

    assert!(err.message().contains("duplicate topology node identity"));
}

#[test]
fn topology_config_rejects_duplicate_nodes_that_only_differ_by_ip_address() {
    let err = parse_clickhouse_topology_config(
        "\
nodes:
  - shard-id: 1
    hostname: ch-bhs1
    ip-address: 10.43.86.5
    tcp-port: 9000
    shard-weight: 1
  - shard-id: 1
    hostname: ch-bhs1
    ip-address: 10.43.86.99
    tcp-port: 9000
    shard-weight: 1
",
    )
    .expect_err("same topology identity with different connection IP should fail");

    assert!(err.message().contains("duplicate topology node identity"));
}

#[test]
fn configured_shard_selection_uses_first_yaml_node_per_shard() {
    let config = parse_clickhouse_topology_config(
        "\
nodes:
  - shard-id: 2
    hostname: ch-bhs2-a
    ip-address: 10.43.86.6
    tcp-port: 9000
    shard-weight: 2
  - shard-id: 1
    hostname: ch-bhs1
    ip-address: 10.43.86.5
    tcp-port: 9000
    shard-weight: 1
  - shard-id: 2
    hostname: ch-bhs2-b
    ip-address: 10.43.86.7
    tcp-port: 9000
    shard-weight: 2
",
    )
    .expect("topology config parses");

    let selected = selected_configured_shard_nodes(&config);

    assert_eq!(selected.len(), 2);
    assert_eq!(selected[0].shard_id, 1);
    assert_eq!(selected[0].hostname, "ch-bhs1");
    assert_eq!(selected[1].shard_id, 2);
    assert_eq!(selected[1].hostname, "ch-bhs2-a");
}

#[test]
fn bucket_modulus_parses_current_expression_shape() {
    let rows = vec![DescribeTableRow {
        name: "addr_bucket".to_string(),
        default_type: "MATERIALIZED".to_string(),
        default_expression: "cityHash64(address) % 128".to_string(),
    }];

    let modulus =
        bucket_modulus_from_describe_rows(&rows, "default.gsfa", BucketColumn::Address)
            .expect("bucket modulus");

    assert_eq!(modulus, 128);
}

#[test]
fn bucket_modulus_parses_expression_with_whitespace_and_parens() {
    let rows = vec![DescribeTableRow {
        name: "sig_bucket".to_string(),
        default_type: "MATERIALIZED".to_string(),
        default_expression: " ( cityHash64(signature) % 32 ) ".to_string(),
    }];

    let modulus =
        bucket_modulus_from_describe_rows(&rows, "default.signatures", BucketColumn::Signature)
            .expect("bucket modulus");

    assert_eq!(modulus, 32);
}

#[test]
fn bucket_modulus_rejects_wrong_source_column() {
    let rows = vec![DescribeTableRow {
        name: "owner_bucket".to_string(),
        default_type: "MATERIALIZED".to_string(),
        default_expression: "cityHash64(address) % 32".to_string(),
    }];

    let err = bucket_modulus_from_describe_rows(
        &rows,
        "default.token_owner_activity",
        BucketColumn::Owner,
    )
    .expect_err("wrong source column should fail");

    assert!(err.message().contains("unsupported expression"));
}

#[test]
fn bucket_modulus_rejects_out_of_range_modulus() {
    let rows = vec![DescribeTableRow {
        name: "addr_bucket".to_string(),
        default_type: "MATERIALIZED".to_string(),
        default_expression: "cityHash64(address) % 300".to_string(),
    }];

    let err = bucket_modulus_from_describe_rows(&rows, "default.gsfa", BucketColumn::Address)
        .expect_err("out of range modulus should fail");

    assert!(err.message().contains("out of supported range"));
}
