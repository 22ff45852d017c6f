//! The history of signatures of an address.
use superbank::clickhouse::client::{
    ClickHouseClient, ClickHouseClientOptions, ClientEnvironment,
};
use superbank::clickhouse::gsfa::build_gsfa_signatures_query;
use superbank::clickhouse::queries::build_pagination_clauses;
use superbank::clickhouse::sharding::{RoutingPolicy, RoutingScope, RoutingTransport};
use superbank::clickhouse::types::{SignatureSlot, SlotBoundary};

fn normalize_sql(sql: &str) -> String {
    sql.split_whitespace().collect::<Vec<_>>().join(" ")
}

fn environment() -> ClientEnvironment {
    ClientEnvironment {
        transaction_table: None,
        signature_table: None,
        blocks_metadata_table: None,
        gsfa_table: None,
        signature_statuses_table: None,
        token_owner_activity_table: None,
        disable_query_settings: false,
    }
}

fn test_client() -> ClickHouseClient {
    ClickHouseClient::new(
        "http://localhost:8123",
        "default",
        "default",
        "",
        ClickHouseClientOptions::new(
            RoutingPolicy {
                transport: RoutingTransport::Http,
                scope: RoutingScope::ShardDirect,
            },
            None,
            Vec::new(),
            "default.gsfa_hot".to_string(),
            "default.gsfa_hot_local".to_string(),
        ),
        environment(),
    )
}

#[test]
fn gsfa_signatures_query_uses_inner_raw_signature_ordering() {
    let sql = build_gsfa_signatures_query(
        "",
        "default.gsfa_local",
        2,
        "toFixedString(unhex('ABCD'), 32)",
        "1",
        1000,
        "SETTINGS use_query_cache=1",
    );
    let sql = normalize_sql(&sql);

    assert!(sql.contains(
        "SELECT base58Encode(signature) as signature, slot, slot_idx, err, memo, block_time"
    ));
    assert!(sql.contains(
        "FROM ( SELECT signature, slot, slot_idx, err, memo, block_time FROM default.gsfa_local"
    ));
    assert!(sql.contains(
        "ORDER BY slot DESC, slot_idx DESC, signature LIMIT 1000 SETTINGS use_query_cache=1"
    ));
    assert!(!sql.contains("ORDER BY slot DESC, slot_idx DESC, base58Encode(signature)"));
}

#[test]
fn gsfa_signatures_query_preserves_before_until_pagination_clause() {
    let (_, where_clause) = build_pagination_clauses(
        Some(SlotBoundary::Position(SignatureSlot {
            slot: 220584742,
            slot_idx: 286,
        })),
        Some(SlotBoundary::Position(SignatureSlot {
            slot: 220580000,
            slot_idx: 10,
        })),
    );

    let sql = build_gsfa_signatures_query(
        "",
        "default.gsfa_local",
        2,
        "toFixedString(unhex('ABCD'), 32)",
        &where_clause,
        1000,
        "",
    );
    let sql = normalize_sql(&sql);

    assert!(
        sql.contains(
            "WHERE (slot + toUInt64(0) < 220584742 OR (slot + toUInt64(0) = 220584742 AND slot_idx + toUInt32(0) < 286)) AND (slot + toUInt64(0) > 220580000 OR (slot + toUInt64(0) = 220580000 AND slot_idx + toUInt32(0) > 10))"
        )
    );
}

#[test]
fn gsfa_signatures_query_supports_slot_boundaries() {
    let (_, where_clause) = build_pagination_clauses(
        Some(SlotBoundary::Slot(220584742)),
        Some(SlotBoundary::Slot(220580000)),
    );

    let sql = build_gsfa_signatures_query(
        "",
        "default.gsfa_local",
        2,
        "toFixedString(unhex('ABCD'), 32)",
        &where_clause,
        1000,
        "",
    );
    let sql = normalize_sql(&sql);

    assert!(sql.contains("WHERE slot < 220584742 AND slot > 220580000"));
    assert!(!sql.contains("slot_idx + toUInt32"));
}

#[test]
fn gsfa_signatures_query_keeps_default_where_true_clause() {
    let (_, where_clause) = build_pagination_clauses(None, None);
    let sql = build_gsfa_signatures_query(
        "",
        "default.gsfa_local",
        2,
        "toFixedString(unhex('ABCD'), 32)",
        &where_clause,
        500,
        "",
    );
    let sql = normalize_sql(&sql);

    assert!(sql.contains("WHERE 1"));
    assert!(sql.contains("LIMIT 500"));
}

#[test]
fn gsfa_signatures_query_regression_same_slot_before_boundary_clause() {
    // Regression coverage for the incident where:
    // - before signature 2xC1... resolved to (slot=400179920, slot_idx=678)
    // - signature 3gY9... at the same slot with slot_idx=673 was skipped.
    // The predicate must always preserve the "same slot, smaller idx" branch and
    // use non-identity arithmetic casts to avoid reverse-key analyzer regressions.
    let (_, where_clause) = build_pagination_clauses(
        Some(SlotBoundary::Position(SignatureSlot {
            slot: 400_179_920,
            slot_idx: 678,
        })),
        None,
    );
    let sql = build_gsfa_signatures_query(
        "",
        "default.gsfa_local",
        2,
        "toFixedString(unhex('ABCD'), 32)",
        &where_clause,
        1000,
        "",
    );
    let sql = normalize_sql(&sql);

    assert!(
        sql.contains(
            "WHERE (slot + toUInt64(0) < 400179920 OR (slot + toUInt64(0) = 400179920 AND slot_idx + toUInt32(0) < 678))"
        )
    );
    assert!(!sql.contains("WHERE (slot < 400179920 OR (slot = 400179920 AND slot_idx < 678))"));
}

#[test]
fn gsfa_signatures_query_regression_same_slot_until_boundary_clause() {
    // Regression coverage for the "until"-only pagination case at the same slot.
    // The predicate must preserve the "same slot, larger idx" branch and use
    // non-identity arithmetic casts to avoid reverse-key analyzer regressions.
    let (_, where_clause) = build_pagination_clauses(
        None,
        Some(SlotBoundary::Position(SignatureSlot {
            slot: 400_179_920,
            slot_idx: 678,
        })),
    );
    let sql = build_gsfa_signatures_query(
        "",
        "default.gsfa_local",
        2,
        "toFixedString(unhex('ABCD'), 32)",
        &where_clause,
        1000,
        "",
    );
    let sql = normalize_sql(&sql);

    assert!(
        sql.contains(
            "WHERE (slot + toUInt64(0) > 400179920 OR (slot + toUInt64(0) = 400179920 AND slot_idx + toUInt32(0) > 678))"
        )
    );
    assert!(!sql.contains("WHERE (slot > 400179920 OR (slot = 400179920 AND slot_idx > 678))"));
}

#[test]
fn hot_addresses_use_distributed_gsfa_table_and_skip_shard_routing() {
    let mut client = test_client();
    let hot_pubkey = [7; 32];
    client.gsfa_hot_pubkeys.push(hot_pubkey);

    assert_eq!(
        client.gsfa_table_for_address(&hot_pubkey),
        "default.gsfa_hot"
    );
    assert!(!client.should_use_gsfa_shard_routing(&hot_pubkey));
}

#[test]
fn hot_addresses_without_topology_use_distributed_hot_table_not_fanout() {
    let mut client = test_client();
    let hot_pubkey = [7; 32];
    client.gsfa_hot_pubkeys.push(hot_pubkey);

    assert_eq!(
        client.gsfa_table_for_address(&hot_pubkey),
        "default.gsfa_hot"
    );
    assert!(!client.should_use_gsfa_hot_fanout(&hot_pubkey));
    assert!(!client.should_use_gsfa_shard_routing(&hot_pubkey));
}

#[test]
fn non_hot_addresses_keep_regular_gsfa_table_and_shard_routing() {
    let client = test_client();
    let cold_pubkey = [9; 32];

    assert_eq!(client.gsfa_table_for_address(&cold_pubkey), "default.gsfa");
    assert!(client.should_use_gsfa_shard_routing(&cold_pubkey));
}
