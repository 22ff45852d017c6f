//! Looking up the rewards of an epoch.
use superbank::clickhouse::inflation::{
    inflation_epoch_slot_bounds, plan_for_partitions, BoundaryRewards, InflationBoundaryRow,
    InflationNext, InflationRequest, InflationRewardError, InflationRewardLookupOutcome,
    InflationRewardRow, InflationSlotRow, PartitionSlots, PartitionStep,
};
use superbank::clickhouse::inflation_queries::{
    build_inflation_boundary_query, build_inflation_partition_slots_query,
    build_inflation_progress_query, build_inflation_rewards_query, InflationRewardSelection,
};
use superbank::hashing::inflation_reward_partition;
use superbank::processing::ProcessingError;

const SEED: [u8; 32] = [5; 32];

fn request(addresses: &[[u8; 32]]) -> InflationRequest {
    InflationRequest::begin(addresses, 9).unwrap().unwrap()
}

fn boundary_row(partitions: Option<u64>) -> InflationBoundaryRow {
    InflationBoundaryRow {
        slot: 4_320_000,
        parent_slot: 4_319_999,
        parent_blockhash: SEED,
        block_height: Some(100),
        rewards_num_partitions: partitions,
    }
}

fn boundary(addresses: &[[u8; 32]], partitions: Option<u64>) -> BoundaryRewards {
    request(addresses).boundary(Some(boundary_row(partitions))).unwrap().unwrap()
}

fn reward(pubkey: [u8; 32], effective_slot: u64) -> InflationRewardRow {
    InflationRewardRow {
        pubkey,
        effective_slot,
        lamports: 11,
        post_balance: 22,
        commission: Some(3),
        commission_bps: Some(300),
    }
}

fn partition_slots(addresses: &[[u8; 32]], partitions: u64) -> PartitionSlots {
    match boundary(addresses, Some(partitions)).finish().unwrap() {
        InflationNext::PartitionSlots(slots) => slots,
        InflationNext::Complete(_) => panic!("the lookup is not over"),
    }
}

fn height_of(address: &[u8; 32], partitions: usize) -> u64 {
    101 + inflation_reward_partition(address, partitions, &SEED) as u64
}

fn text<T>(r: Result<T, InflationRewardError>) -> String {
    match r {
        Err(error) => error.message(),
        Ok(_) => panic!("an error was expected"),
    }
}

#[test]
fn an_epoch_is_paid_out_in_the_next_one() {
    assert_eq!(inflation_epoch_slot_bounds(9), Some((4_320_000, 4_752_000)));
    assert_eq!(inflation_epoch_slot_bounds(u64::MAX), None);
    assert_eq!(inflation_epoch_slot_bounds(u64::MAX / 432_000), None);
    let r = request(&[[1; 32], [2; 32], [1; 32]]);
    assert_eq!((r.epoch, r.start_slot, r.end_slot_exclusive), (9, 4_320_000, 4_752_000));
    assert_eq!(r.addresses, vec![[1; 32], [2; 32]]);
    assert!(InflationRequest::begin(&[], 9).unwrap().is_none());
    assert_eq!(
        text(InflationRequest::begin(&[[1; 32]], u64::MAX)),
        "epoch 18446744073709551615 is out of range"
    );
}

#[test]
fn a_boundary_must_be_the_first_block_of_its_epoch() {
    assert!(request(&[[1; 32]]).boundary(None).unwrap().is_none());
    let wrong = |change: fn(&mut InflationBoundaryRow)| {
        let mut row = boundary_row(Some(4));
        change(&mut row);
        text(request(&[[1; 32]]).boundary(Some(row)))
    };
    let invalid = "slot 4320000 is not a valid epoch boundary for inflation epoch 9";
    assert_eq!(wrong(|row| row.parent_slot = 4_320_000), invalid);
    assert_eq!(
        wrong(|row| row.block_height = None),
        "inflation reward boundary slot 4320000 has no block height"
    );
    assert_eq!(
        wrong(|row| row.rewards_num_partitions = Some(0)),
        "inflation epoch 9 declares unsupported reward partition count 0"
    );
    assert_eq!(
        wrong(|row| row.rewards_num_partitions = Some(4_097)),
        "inflation epoch 9 declares unsupported reward partition count 4097"
    );
}

#[test]
fn rewards_without_partitions_are_all_in_the_boundary_block() {
    let mut b = boundary(&[[1; 32], [2; 32]], None);
    assert_eq!(b.selection(), InflationRewardSelection::VoteAndStake);
    b.accept(reward([1; 32], 4_320_000)).unwrap();
    match b.finish().unwrap() {
        InflationNext::Complete(rewards) => {
            assert_eq!(rewards.len(), 1);
            assert_eq!(rewards[0].pubkey, [1; 32]);
            assert_eq!(rewards[0].lamports, 11);
            assert_eq!(rewards[0].post_balance, 22);
            assert_eq!(rewards[0].commission, Some(3));
            assert_eq!(rewards[0].commission_bps, Some(300));
        }
        InflationNext::PartitionSlots(_) => panic!("the lookup is over"),
    }
}

#[test]
fn wrong_rewards_of_the_boundary_are_refused() {
    let mut b = boundary(&[[1; 32]], Some(4));
    assert_eq!(b.selection(), InflationRewardSelection::VoteOnly);
    assert_eq!(
        text(b.accept(reward([2; 32], 4_320_000))),
        "boundary reward query returned an unrequested address"
    );
    assert_eq!(
        text(b.accept(reward([1; 32], 4_320_001))),
        "boundary reward for requested address came from slot 4320001, expected 4320000"
    );
    b.accept(reward([1; 32], 4_320_000)).unwrap();
    assert_eq!(
        text(b.accept(reward([1; 32], 4_320_000))),
        "boundary reward query returned a duplicate address"
    );
    assert_eq!(b.rewards.len(), 1);
    assert!(matches!(b.finish(), Ok(InflationNext::Complete(rewards)) if rewards.len() == 1));
}

#[test]
fn heights_that_do_not_fit_are_refused() {
    let mut row = boundary_row(Some(4));
    row.block_height = Some(u64::MAX - 3);
    let b = request(&[[1; 32]]).boundary(Some(row)).unwrap().unwrap();
    assert_eq!(
        text(b.finish()),
        "inflation epoch 9 rewards-complete block height overflowed"
    );
    assert!(plan_for_partitions(&[[1; 32]], &[1], u64::MAX - 1).is_none());
    let plan = plan_for_partitions(&[[1; 32], [2; 32], [3; 32]], &[4, 0, 4], 10).unwrap();
    assert_eq!(plan.required_block_heights, vec![11, 15]);
    assert_eq!(plan.block_height_by_pubkey[0], ([1; 32], 15));
    assert_eq!(plan.block_height_by_pubkey[1], ([2; 32], 11));
}

#[test]
fn partitions_are_found_by_their_height() {
    let address = [1; 32];
    let height = height_of(&address, 4);
    let mut slots = partition_slots(&[address], 4);
    assert_eq!(slots.rewards_complete_block_height, 105);
    assert_eq!(slots.plan.required_block_heights, vec![height]);
    assert_eq!(
        text(slots.accept(InflationSlotRow { slot: 4_320_001, block_height: None })),
        "inflation reward partition slot 4320001 has no block height"
    );
    assert_eq!(
        text(slots.accept(InflationSlotRow { slot: 4_320_001, block_height: Some(999) })),
        "partition lookup returned unexpected block height 999"
    );
    assert_eq!(
        text(slots.accept(InflationSlotRow { slot: 4_752_000, block_height: Some(height) })),
        "partition lookup returned unexpected slot 4752000"
    );
    slots.accept(InflationSlotRow { slot: 4_320_001, block_height: Some(height) }).unwrap();
    assert_eq!(
        text(slots.accept(InflationSlotRow { slot: 4_320_002, block_height: Some(height) })),
        format!("partition block height {height} maps to multiple slots")
    );
    let mut rewards = match slots.finish() {
        PartitionStep::Rewards(rewards) => rewards,
        PartitionStep::Progress(_) => panic!("no block is missing"),
    };
    assert_eq!(rewards.selected_slots, vec![4_320_001]);
    assert_eq!(rewards.expected, vec![4_320_001]);
    assert_eq!(
        text(rewards.accept(reward([2; 32], 4_320_001))),
        "partition reward query returned an unrequested address"
    );
    assert_eq!(
        text(rewards.accept(reward(address, 4_320_009))),
        "partition reward for requested address came from slot 4320009, expected 4320001"
    );
    rewards.accept(reward(address, 4_320_001)).unwrap();
    assert_eq!(
        text(rewards.accept(reward(address, 4_320_001))),
        "partition reward query returned a duplicate address"
    );
    let all = rewards.finish();
    assert_eq!(all.len(), 1);
    assert_eq!(all[0].effective_slot, 4_320_001);
}

#[test]
fn a_slot_has_one_height() {
    let mut other = [0u8; 32];
    let first = [1; 32];
    while height_of(&other, 64) == height_of(&first, 64) {
        other[0] += 1;
    }
    let mut slots = partition_slots(&[first, other], 64);
    slots
        .accept(InflationSlotRow { slot: 4_320_001, block_height: Some(height_of(&first, 64)) })
        .unwrap();
    assert_eq!(
        text(slots.accept(InflationSlotRow {
            slot: 4_320_001,
            block_height: Some(height_of(&other, 64)),
        })),
        "partition slot 4320001 maps to multiple block heights"
    );
}

#[test]
fn missing_partitions_wait_for_the_payout() {
    let address = [1; 32];
    let height = height_of(&address, 4);
    let progress = || match partition_slots(&[address], 4).finish() {
        PartitionStep::Progress(progress) => progress,
        PartitionStep::Rewards(_) => panic!("a block is missing"),
    };
    assert_eq!(progress().missing, vec![height]);
    assert_eq!(
        text(progress().observe(None)),
        "payout epoch progress disappeared after boundary slot 4320000 was read"
    );
    assert_eq!(
        text(progress().observe(Some(InflationSlotRow { slot: 4_320_003, block_height: None }))),
        "payout epoch progress slot 4320003 has no block height"
    );
    assert_eq!(
        text(progress().observe(Some(InflationSlotRow { slot: 4_752_000, block_height: Some(101) }))),
        "payout epoch progress returned unexpected slot 4752000 at block height 101"
    );
    match progress().observe(Some(InflationSlotRow { slot: 4_320_003, block_height: Some(104) })) {
        Ok(InflationRewardLookupOutcome::RewardsPeriodActive {
            slot,
            current_block_height,
            rewards_complete_block_height,
        }) => {
            assert_eq!((slot, current_block_height, rewards_complete_block_height), (4_320_003, 104, 105))
        }
        _ => panic!("the payout is under way"),
    }
    let late = progress().observe(Some(InflationSlotRow { slot: 4_320_009, block_height: Some(105) }));
    assert_eq!(
        text(late),
        format!("inflation rewards for epoch 9 reached completion block height 105, but required partition block heights [{height}] are missing")
    );
}

#[test]
fn reward_errors_are_errors_of_the_database() {
    let error = InflationRewardError::TooManyPartitions { epoch: 9 }.into_processing_error();
    match error {
        ProcessingError::Database { context } => {
            assert_eq!(context, "inflation epoch 9 declares too many reward partitions")
        }
        _ => panic!("an error of the database was expected"),
    }
    assert_eq!(
        InflationRewardError::PartitionHeightOverflow { epoch: 9 }.message(),
        "inflation epoch 9 partition block height overflowed"
    );
}

#[test]
fn each_step_of_a_lookup_has_its_query() {
    let addresses = [[1u8; 32], [2u8; 32]];
    let table = "default.blocks_metadata";
    let settings = "SETTINGS max_threads=2";
    let asked = request(&addresses);
    assert_eq!(
        asked.query(table, settings),
        build_inflation_boundary_query(table, 4_320_000, 4_752_000, settings)
    );
    for (partitions, selection) in [
        (None, InflationRewardSelection::VoteAndStake),
        (Some(8), InflationRewardSelection::VoteOnly),
    ] {
        assert_eq!(
            boundary(&addresses, partitions).query(table, settings),
            build_inflation_rewards_query(table, &addresses, &[4_320_000], selection, settings)
        );
    }
    let slots = partition_slots(&addresses, 8);
    let mut heights: Vec<u64> = addresses.iter().map(|key| height_of(key, 8)).collect();
    heights.sort_unstable();
    heights.dedup();
    assert_eq!(
        slots.query(table, settings),
        build_inflation_partition_slots_query(table, 4_320_000, 4_752_000, &heights, settings)
    );
    match slots.finish() {
        PartitionStep::Progress(progress) => assert_eq!(
            progress.query(table, settings),
            build_inflation_progress_query(table, 4_320_000, 4_752_000, settings)
        ),
        PartitionStep::Rewards(_) => panic!("slots are missing"),
    }
    let mut slots = partition_slots(&addresses, 8);
    for (i, height) in heights.iter().enumerate() {
        let row = InflationSlotRow { slot: 4_320_010 + i as u64, block_height: Some(*height) };
        slots.accept(row).unwrap();
    }
    match slots.finish() {
        PartitionStep::Rewards(rewards) => assert_eq!(
            rewards.query(table, settings),
            build_inflation_rewards_query(
                table,
                &addresses,
                &rewards.selected_slots,
                InflationRewardSelection::StakeOnly,
                settings
            )
        ),
        PartitionStep::Progress(_) => panic!("all slots are known"),
    }
}
