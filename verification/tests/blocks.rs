//! Blocks, slot ranges and inflation rewards.
use std::collections::HashMap;

use superbank::clickhouse::blocks::{
    build_block_metadata_query, build_block_metadata_range_query, build_block_time_query,
    build_block_transactions_query, build_blockhash_valid_query, build_transaction_count_query,
    BlockTransactionProjection,
};
use superbank::clickhouse::inflation::{
    inflation_epoch_slot_bounds, inflation_rewards_period_is_active,
    plan_inflation_reward_partitions,
};
use superbank::clickhouse::inflation_queries::{
    build_inflation_boundary_query, build_inflation_partition_slots_query,
    build_inflation_progress_query, build_inflation_rewards_query, InflationRewardSelection,
};
use superbank::clickhouse::slots::{
    normalize_slots, shard_indices_for_slot_range, shard_slot_ranges_for_slot_range,
    ShardSlotRange, SLOT_SHARD_DIVISOR,
};
use superbank::hashing::inflation_reward_partition;

#[test]
fn shard_indices_for_slot_range_returns_single_shard_for_single_bucket() {
    let shards = shard_indices_for_slot_range(10, 100, |bucket| (bucket % 4) as usize);
    assert_eq!(shards, vec![0]);
}

#[test]
fn shard_indices_for_slot_range_handles_bucket_boundaries() {
    let start_slot = SLOT_SHARD_DIVISOR - 1;
    let end_slot = SLOT_SHARD_DIVISOR + 1;
    let shards = shard_indices_for_slot_range(start_slot, end_slot, |bucket| bucket as usize);
    assert_eq!(shards, vec![0, 1]);
}

#[test]
fn shard_indices_for_slot_range_deduplicates_shards() {
    let end_slot = SLOT_SHARD_DIVISOR * 5;
    let shards = shard_indices_for_slot_range(0, end_slot, |bucket| (bucket % 2) as usize);
    assert_eq!(shards, vec![0, 1]);
}

#[test]
fn shard_indices_for_slot_range_returns_empty_when_range_inverted() {
    let shards = shard_indices_for_slot_range(10, 9, |_| 0);
    assert!(shards.is_empty());
}

#[test]
fn shard_slot_ranges_for_slot_range_keeps_single_bucket_together() {
    let ranges = shard_slot_ranges_for_slot_range(10, 100, |bucket| (bucket % 3) as usize);
    assert_eq!(
        ranges,
        vec![ShardSlotRange {
            shard_index: 0,
            start_slot: 10,
            end_slot: 100,
        }]
    );
}

#[test]
fn shard_slot_ranges_for_slot_range_splits_at_bucket_boundaries() {
    let start_slot = SLOT_SHARD_DIVISOR - 2;
    let end_slot = SLOT_SHARD_DIVISOR + 2;
    let ranges =
        shard_slot_ranges_for_slot_range(start_slot, end_slot, |bucket| bucket as usize);
    assert_eq!(
        ranges,
        vec![
            ShardSlotRange {
                shard_index: 0,
                start_slot,
                end_slot: SLOT_SHARD_DIVISOR - 1,
            },
            ShardSlotRange {
                shard_index: 1,
                start_slot: SLOT_SHARD_DIVISOR,
                end_slot,
            },
        ]
    );
}

#[test]
fn normalize_slots_handles_empty_and_singleton() {
    assert_eq!(normalize_slots(Vec::new()), Vec::<u64>::new());
    assert_eq!(normalize_slots(vec![42]), vec![42]);
}

#[test]
fn normalize_slots_sorts_and_deduplicates() {
    let slots = normalize_slots(vec![5, 2, 5, 3, 2, 9, 9, 1]);
    assert_eq!(slots, vec![1, 2, 3, 5, 9]);
}

#[test]
fn inflation_boundary_query_reads_only_lightweight_metadata() {
    let query = build_inflation_boundary_query(
        "default.blocks_metadata",
        121_392_000,
        121_824_000,
        "SETTINGS max_threads=2",
    );

    assert!(query.contains("intDiv(slot, 432000) = 281"));
    assert!(query.contains("slot >= 121392000"));
    assert!(query.contains("slot < 121824000"));
    assert!(query.contains("rewards_num_partitions"));
    assert!(!query.contains("rewards_pubkey"));
    assert!(query.contains("ORDER BY slot ASC"));
    assert!(query.contains("LIMIT 1"));
    assert!(query.contains("SETTINGS max_threads=2"));
}

#[test]
fn inflation_epoch_1018_payout_starts_at_foundation_error_slot() {
    assert_eq!(
        inflation_epoch_slot_bounds(1_018),
        Some((440_208_000, 440_640_000))
    );
}

#[test]
fn inflation_partition_slots_query_targets_exact_block_heights() {
    let query = build_inflation_partition_slots_query(
        "default.blocks_metadata",
        121_392_000,
        121_824_000,
        &[270_000_001, 270_000_017],
        "",
    );

    assert!(query.contains("SELECT slot, block_height"));
    assert!(query.contains("slot > 121392000"));
    assert!(query.contains("slot < 121824000"));
    assert!(query.contains("WHERE block_height IN (270000001, 270000017)"));
    assert!(query.contains("ORDER BY block_height ASC, slot ASC"));
    assert!(!query.contains("LIMIT 1 BY slot"));
    assert!(!query.contains("LIMIT 293"));
}

#[test]
fn inflation_progress_query_reads_latest_landed_payout_block() {
    let query = build_inflation_progress_query(
        "default.blocks_metadata",
        121_392_000,
        121_824_000,
        "SETTINGS max_threads=2",
    );

    assert!(query.contains("SELECT slot, block_height"));
    assert!(query.contains("slot >= 121392000"));
    assert!(query.contains("slot < 121824000"));
    assert!(query.contains("ORDER BY slot DESC"));
    assert!(query.contains("LIMIT 1"));
    assert!(query.contains("SETTINGS max_threads=2"));
}

#[test]
fn inflation_rewards_query_expands_only_exact_slots() {
    let addresses = [[1u8; 32], [2u8; 32]];
    let query = build_inflation_rewards_query(
        "default.blocks_metadata",
        &addresses,
        &[121_392_000, 121_392_017],
        InflationRewardSelection::StakeOnly,
        "SETTINGS max_threads=2, max_memory_usage=536870912",
    );

    assert!(query.contains("PREWHERE slot IN (121392000, 121392017)"));
    assert!(!query.contains("PREWHERE slot >="));
    assert!(query.contains("ARRAY JOIN arrayZip"));
    assert!(query.contains("AS rewards_commission_bps"));
    assert!(query.contains("CAST(NULL, 'Nullable(UInt16)')"));
    assert!(query.contains("tupleElement(latest, 5) AS commission_bps"));
    assert!(query.contains("= 'staking'"));
    assert!(query.contains("max_threads=2"));
    assert!(query.contains("max_memory_usage=536870912"));
}

#[test]
fn inflation_reward_partition_is_deterministic_and_bounded() {
    let seed = [9u8; 32];
    let first = inflation_reward_partition(&[1u8; 32], 293, &seed);
    let repeated = inflation_reward_partition(&[1u8; 32], 293, &seed);
    let second = inflation_reward_partition(&[2u8; 32], 293, &seed);

    assert_eq!(first, repeated);
    assert!(first < 293);
    assert!(second < 293);
    assert_ne!(first, second);
}

#[test]
fn inflation_partition_plan_deduplicates_shared_partitions_and_targets_distinct_ones() {
    let seed = [9u8; 32];
    let num_partitions = 4;
    let boundary_block_height = 270_000_000;
    let candidates = (0..=u8::MAX).map(|value| [value; 32]).collect::<Vec<_>>();
    let mut addresses_by_partition = HashMap::<usize, Vec<[u8; 32]>>::new();
    for address in candidates {
        addresses_by_partition
            .entry(inflation_reward_partition(&address, num_partitions, &seed))
            .or_default()
            .push(address);
    }

    let (shared_partition, shared_addresses) = addresses_by_partition
        .iter()
        .find(|(_, addresses)| addresses.len() >= 2)
        .expect("test inputs should share a partition");
    let shared_plan = plan_inflation_reward_partitions(
        &shared_addresses[..2],
        num_partitions,
        &seed,
        boundary_block_height,
    )
    .expect("partition heights should not overflow");
    assert_eq!(
        shared_plan.required_block_heights,
        vec![boundary_block_height + *shared_partition as u64 + 1]
    );

    let mut distinct_partitions = addresses_by_partition.iter();
    let (first_partition, first_addresses) = distinct_partitions
        .next()
        .expect("at least two partitions should be represented");
    let (second_partition, second_addresses) = distinct_partitions
        .find(|(partition, _)| partition != &first_partition)
        .expect("at least two partitions should be represented");
    let distinct_addresses = [first_addresses[0], second_addresses[0]];
    let distinct_plan = plan_inflation_reward_partitions(
        &distinct_addresses,
        num_partitions,
        &seed,
        boundary_block_height,
    )
    .expect("partition heights should not overflow");
    let mut expected_heights = vec![
        boundary_block_height + *first_partition as u64 + 1,
        boundary_block_height + *second_partition as u64 + 1,
    ];
    expected_heights.sort_unstable();
    assert_eq!(distinct_plan.required_block_heights, expected_heights);
}

#[test]
fn inflation_partition_plan_rejects_block_height_overflow() {
    assert!(
        plan_inflation_reward_partitions(&[[1u8; 32]], 293, &[9u8; 32], u64::MAX).is_none()
    );
}

#[test]
fn inflation_reward_period_stays_active_until_completion_height() {
    assert!(inflation_rewards_period_is_active(1_292, 1_293));
    assert!(!inflation_rewards_period_is_active(1_293, 1_293));
    assert!(!inflation_rewards_period_is_active(1_294, 1_293));
}

#[test]
fn block_metadata_query_omits_reward_columns_when_not_requested() {
    let query = build_block_metadata_query("default.blocks_metadata", 42, false, "", true);

    assert!(query.contains("executed_transaction_count"));
    assert!(!query.contains("rewards_present"));
    assert!(!query.contains("rewards_pubkey"));
}

#[test]
fn memory_block_queries_use_where_instead_of_prewhere() {
    let metadata = build_block_metadata_query("cache.blocks_metadata", 42, true, "", false);
    let block_time = build_block_time_query("cache.blocks_metadata", 42, "", false);

    assert!(metadata.contains("WHERE slot = 42"));
    assert!(!metadata.contains("PREWHERE"));
    assert!(block_time.contains("WHERE slot = 42"));
    assert!(!block_time.contains("PREWHERE"));
}

#[test]
fn block_metadata_range_query_includes_bucket_predicate_for_shard_pruning() {
    let query = build_block_metadata_range_query(
        "default.blocks_metadata",
        SLOT_SHARD_DIVISOR + 1,
        SLOT_SHARD_DIVISOR + 10,
        "",
    );

    assert!(query.contains("intDiv(slot, 432000) BETWEEN 1 AND 1"));
    assert!(query.contains("AND slot BETWEEN 432001 AND 432010"));
}

#[test]
fn blockhash_valid_query_uses_slot_bounds_and_inclusive_height() {
    let query = build_blockhash_valid_query(
        "default.blocks_metadata",
        "toFixedString(unhex('AB'), 32)",
        744,
        1000,
        850,
        "",
    );

    assert!(query.contains("intDiv(slot, 432000) BETWEEN 0 AND 0"));
    assert!(query.contains("AND slot BETWEEN 744 AND 1000"));
    assert!(query.contains("blockhash = toFixedString(unhex('AB'), 32)"));
    assert!(query.contains("block_height >= 850"));
    assert!(query.contains("LIMIT 1"));
}

#[test]
fn block_signatures_query_reads_only_signature_column() {
    let query = build_block_transactions_query(
        "default.transactions",
        42,
        BlockTransactionProjection::Signatures,
        "",
    );

    assert!(query.contains("SELECT\n                signature\n"));
    assert!(!query.contains("tx_account_keys"));
    assert!(!query.contains("meta_fee"));
}

#[test]
fn block_signatures_query_orders_by_slot_index_before_signature_dedup() {
    let query = build_block_transactions_query(
        "default.transactions",
        42,
        BlockTransactionProjection::Signatures,
        "",
    );

    assert!(query.contains("ORDER BY slot_idx ASC, signature ASC"));
    assert!(query.contains("LIMIT 1 BY signature"));
}

#[test]
fn transaction_count_query_reads_transaction_table_with_prewhere() {
    let query = build_transaction_count_query("default.transactions", 42, false, "");

    assert!(query.contains("count() AS transaction_count"));
    assert!(query.contains("FROM default.transactions"));
    assert!(query.contains("PREWHERE slot < 42"));
    assert!(!query.contains("executed_transaction_count"));
}

#[test]
fn block_accounts_query_excludes_heavy_fields() {
    let query = build_block_transactions_query(
        "default.transactions",
        42,
        BlockTransactionProjection::Accounts,
        "",
    );

    assert!(query.contains("tx_account_keys"));
    assert!(query.contains("tx_instructions_program_id_index"));
    assert!(query.contains("meta_loaded_addresses_writable"));
    assert!(!query.contains("tx_config_priority_fee"));
    assert!(!query.contains("meta_log_messages"));
    assert!(!query.contains("meta_return_data_data"));
    assert!(!query.contains("meta_compute_units_consumed"));
    assert!(query.contains("meta_reward_pubkey"));
}

#[test]
fn block_full_query_omits_dead_per_row_fields_and_optional_rewards() {
    let query = build_block_transactions_query(
        "default.transactions",
        42,
        BlockTransactionProjection::Full,
        "",
    );

    assert!(query.contains("tx_recent_blockhash"));
    assert!(query.contains("tx_config_priority_fee"));
    assert!(query.contains("tx_config_compute_unit_limit"));
    assert!(query.contains("tx_config_loaded_accounts_data_size_limit"));
    assert!(query.contains("tx_config_heap_size"));
    assert!(query.contains("meta_return_data_data"));
    assert!(!query.contains("\n                slot,"));
    assert!(!query.contains("\n                block_time,"));
    assert!(query.contains("meta_reward_pubkey"));
}
