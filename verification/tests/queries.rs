//! Queries for the transactions of an address.
use ch_cityhash102::cityhash64;
use superbank::clickhouse::queries::{
    apply_hot_resolved_pagination_token, build_hot_position_pagination_clauses,
    build_transactions_by_slot_range_query, build_transactions_by_slot_signatures_query,
    build_transactions_for_address_hot_query, build_transactions_for_address_query,
    check_signature_bytes, slot_idx_condition_for_position, SlotIdxComparison,
    TransactionsForAddressTables,
};
use superbank::clickhouse::slots::SLOT_SHARD_DIVISOR;
use superbank::clickhouse::types::{
    NumericFilter, PaginationToken, ResolvedSignatureFilter, SignatureFilter, SignatureSlot,
    SlotBoundary, SortOrder, TokenAccountsFilter, TransactionStatusFilter,
    TransactionsForAddressQuery,
};

fn normalize_sql(sql: &str) -> String {
    sql.split_whitespace().collect::<Vec<_>>().join(" ")
}

#[test]
fn transactions_for_address_query_uses_distinct_bucket_moduli() {
    let address = bs58::encode([9_u8; 32]).into_string();
    let signature_bytes = [7_u8; 64];
    let signature = bs58::encode(signature_bytes).into_string();
    let expected_signature_bucket = cityhash64(signature_bytes.as_slice()) % 64;

    let query = TransactionsForAddressQuery {
        address: address.clone(),
        limit: 25,
        sort_order: SortOrder::Desc,
        pagination: None,
        resolved_pagination: None,
        slot_filter: None,
        block_time_filter: None,
        signature_filter: Some(SignatureFilter {
            gte: Some(signature),
            ..SignatureFilter::default()
        }),
        resolved_signature_filter: None,
        status: TransactionStatusFilter::Any,
        token_accounts: TokenAccountsFilter::All,
    };

    let tables = TransactionsForAddressTables {
        gsfa_table: "default.gsfa",
        gsfa_bucket_modulus: 128,
        token_owner_table: "default.token_owner_activity",
        token_owner_bucket_modulus: 32,
        signatures_table: "default.signatures",
        signature_bucket_modulus: 64,
    };

    let sql = build_transactions_for_address_query(&tables, &query, "").expect("query");
    let sql = normalize_sql(&sql);

    assert!(
        sql.contains("FROM default.gsfa PREWHERE addr_bucket = cityHash64(CAST(base58Decode('")
    );
    assert!(sql.contains("AS FixedString(32))) % 128 AND address = CAST(base58Decode('"));
    assert!(sql.contains(
        "FROM default.token_owner_activity PREWHERE owner_bucket = cityHash64(CAST(base58Decode('"
    ));
    assert!(sql.contains("AS FixedString(32))) % 32 AND owner = CAST(base58Decode('"));
    assert!(sql.contains(&format!("{expected_signature_bucket} AS sig_gte_bucket")));
    assert!(sql.contains(
        "slot + toUInt64(0) > sig_gte_slot OR (slot + toUInt64(0) = sig_gte_slot AND slot_idx + toUInt32(0) >= sig_gte_idx)"
    ));
}

#[test]
fn transactions_by_slot_range_query_includes_bucket_predicate_for_shard_pruning() {
    let query = build_transactions_by_slot_range_query(
        "default.transactions",
        SLOT_SHARD_DIVISOR + 1,
        SLOT_SHARD_DIVISOR + 10,
        "",
    );
    let sql = normalize_sql(&query);

    assert!(sql.contains("intDiv(slot, 432000) BETWEEN 1 AND 1"));
    assert!(sql.contains("AND slot BETWEEN 432001 AND 432010"));
}

#[test]
fn transactions_for_address_query_uses_computed_slot_filter_bounds() {
    let query = TransactionsForAddressQuery {
        address: bs58::encode([9_u8; 32]).into_string(),
        limit: 100,
        sort_order: SortOrder::Asc,
        pagination: None,
        resolved_pagination: None,
        slot_filter: Some(NumericFilter {
            gte: Some(420_050_657),
            lte: Some(420_051_754),
            ..NumericFilter::default()
        }),
        block_time_filter: Some(NumericFilter {
            gte: Some(1_778_907_063),
            lte: Some(1_778_907_499),
            ..NumericFilter::default()
        }),
        signature_filter: None,
        resolved_signature_filter: None,
        status: TransactionStatusFilter::Any,
        token_accounts: TokenAccountsFilter::Omitted,
    };

    let tables = TransactionsForAddressTables {
        gsfa_table: "default.gsfa",
        gsfa_bucket_modulus: 32,
        token_owner_table: "default.token_owner_activity",
        token_owner_bucket_modulus: 32,
        signatures_table: "default.signatures",
        signature_bucket_modulus: 32,
    };

    let sql = build_transactions_for_address_query(&tables, &query, "").expect("query");
    let sql = normalize_sql(&sql);

    assert!(sql.contains(
        "WHERE slot + toUInt64(0) >= 420050657 AND slot + toUInt64(0) <= 420051754 AND block_time >= 1778907063 AND block_time <= 1778907499"
    ));
    assert!(!sql.contains("WHERE slot >= 420050657"));
    assert!(!sql.contains("AND slot <= 420051754"));
}

#[test]
fn hot_transactions_for_address_query_uses_resolved_numeric_bounds() {
    let query = TransactionsForAddressQuery {
        address: bs58::encode([9_u8; 32]).into_string(),
        limit: 50,
        sort_order: SortOrder::Desc,
        pagination: Some(PaginationToken::Signature(
            "ignored".to_string(),
        )),
        resolved_pagination: Some(SignatureSlot {
            slot: 400_179_920,
            slot_idx: 678,
        }),
        slot_filter: None,
        block_time_filter: None,
        signature_filter: Some(SignatureFilter {
            gte: Some("ignored".to_string()),
            ..SignatureFilter::default()
        }),
        resolved_signature_filter: Some(ResolvedSignatureFilter {
            gte: Some(SignatureSlot {
                slot: 400_179_100,
                slot_idx: 42,
            }),
            ..ResolvedSignatureFilter::default()
        }),
        status: TransactionStatusFilter::Any,
        token_accounts: TokenAccountsFilter::Omitted,
    };

    let sql = build_transactions_for_address_hot_query(
        "default.gsfa_hot_local",
        32,
        &query,
        "SETTINGS use_query_cache=1",
    )
    .expect("query");
    let sql = normalize_sql(&sql);

    assert!(sql.contains("FROM default.gsfa_hot_local"));
    assert!(sql.contains("(slot > 400179100 OR (slot = 400179100 AND slot_idx >= 42))"));
    assert!(sql.contains("(slot < 400179920 OR (slot = 400179920 AND slot_idx < 678))"));
    assert!(!sql.contains("slot + toUInt64(0) > 400179100"));
    assert!(!sql.contains("slot_idx + toUInt32(0) < 678"));
    assert!(!sql.contains("FROM default.signatures"));
    assert!(!sql.contains("ignored"));
}

#[test]
fn hot_position_pagination_clauses_use_raw_reverse_key_predicates() {
    let (_, where_clause) = build_hot_position_pagination_clauses(
        Some(SlotBoundary::Position(SignatureSlot {
            slot: 400_179_920,
            slot_idx: 678,
        })),
        Some(SlotBoundary::Position(SignatureSlot {
            slot: 400_179_100,
            slot_idx: 42,
        })),
    );

    assert_eq!(
        where_clause,
        "(slot < 400179920 OR (slot = 400179920 AND slot_idx < 678)) AND (slot > 400179100 OR (slot = 400179100 AND slot_idx > 42))"
    );
}

#[test]
fn hot_transactions_for_address_query_uses_raw_slot_filter_bounds() {
    let query = TransactionsForAddressQuery {
        address: bs58::encode([9_u8; 32]).into_string(),
        limit: 100,
        sort_order: SortOrder::Asc,
        pagination: None,
        resolved_pagination: None,
        slot_filter: Some(NumericFilter {
            lte: Some(420_051_754),
            ..NumericFilter::default()
        }),
        block_time_filter: None,
        signature_filter: None,
        resolved_signature_filter: None,
        status: TransactionStatusFilter::Any,
        token_accounts: TokenAccountsFilter::Omitted,
    };

    let sql =
        build_transactions_for_address_hot_query("default.gsfa_hot_local", 32, &query, "")
            .expect("query");
    let sql = normalize_sql(&sql);

    assert!(sql.contains("WHERE slot <= 420051754"));
    assert!(!sql.contains("slot + toUInt64(0) <= 420051754"));
}

#[test]
fn pairs_of_slots_and_signatures_are_chunked() {
    let pairs: Vec<(u64, String)> = (1..=3).map(|n| (n, format!("s{n}"))).collect();
    let sql = normalize_sql(&build_transactions_by_slot_signatures_query(
        "default.transactions",
        &pairs,
        "1",
        "SETTINGS x=1",
        2,
    ));
    assert!(sql.ends_with(
        "FROM default.transactions PREWHERE ((slot, signature) IN ((1, s1), (2, s2)) OR (slot, signature) IN ((3, s3))) WHERE 1 SETTINGS x=1"
    ));
    let sql = normalize_sql(&build_transactions_by_slot_signatures_query(
        "t", &pairs[0..1], "1", "", 0,
    ));
    assert!(sql.ends_with("PREWHERE (slot, signature) IN ((1, s1)) WHERE 1"));
    let sql = normalize_sql(&build_transactions_by_slot_signatures_query("t", &[], "1", "", 5));
    assert!(sql.ends_with("PREWHERE () WHERE 1"));
}

#[test]
fn positions_are_compared_by_slot_and_place() {
    let at = SignatureSlot { slot: 7, slot_idx: 3 };
    let text = |comparison| slot_idx_condition_for_position(at, comparison);
    assert_ne!(text(SlotIdxComparison::Lt), text(SlotIdxComparison::Lte));
    assert!(text(SlotIdxComparison::Lt).contains("slot < 7"));
    assert!(text(SlotIdxComparison::Gt).contains("slot > 7"));
    assert!(text(SlotIdxComparison::Gte).contains("slot_idx >= 3"));
    let mut descending = Vec::new();
    apply_hot_resolved_pagination_token(at, SortOrder::Desc, &mut descending);
    assert_eq!(descending, vec![text(SlotIdxComparison::Lt)]);
    let mut ascending = Vec::new();
    apply_hot_resolved_pagination_token(at, SortOrder::Asc, &mut ascending);
    assert_eq!(ascending, vec![text(SlotIdxComparison::Gt)]);
}

#[test]
fn signatures_of_filters_have_sixty_four_bytes() {
    assert_eq!(check_signature_bytes(Some(vec![1; 64])).unwrap(), vec![1; 64]);
    assert!(check_signature_bytes(Some(vec![1; 63])).is_err());
    assert!(check_signature_bytes(None).is_err());
}

#[test]
fn without_a_signature_no_bucket_of_one_is_needed() {
    let query = TransactionsForAddressQuery {
        address: bs58::encode([9_u8; 32]).into_string(),
        limit: 1,
        sort_order: SortOrder::Asc,
        pagination: Some(PaginationToken::SlotIndex { slot: 5, idx: 6 }),
        resolved_pagination: None,
        slot_filter: None,
        block_time_filter: None,
        signature_filter: Some(SignatureFilter::default()),
        resolved_signature_filter: None,
        status: TransactionStatusFilter::Any,
        token_accounts: TokenAccountsFilter::Omitted,
    };
    let tables = TransactionsForAddressTables {
        gsfa_table: "default.gsfa",
        gsfa_bucket_modulus: 128,
        token_owner_table: "default.token_owner_activity",
        token_owner_bucket_modulus: 32,
        signatures_table: "default.signatures",
        signature_bucket_modulus: 0,
    };
    let sql = build_transactions_for_address_query(&tables, &query, "").expect("query");
    assert!(!sql.contains("default.signatures"));
}
