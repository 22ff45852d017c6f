//! The inflation reward lookup of one epoch, as a sequence of checked steps.
//!
//! Each step takes the rows of one query and says what to ask next, or how the lookup ends.
use std::collections::HashMap;

use vstd::prelude::*;

use crate::clickhouse::inflation_queries;
use crate::clickhouse::inflation_queries::{
    build_inflation_boundary_query, build_inflation_partition_slots_query,
    build_inflation_progress_query, build_inflation_rewards_query, InflationRewardSelection,
};
use crate::clickhouse::slots;
use crate::hashing;
use crate::lists;
use crate::processing::ProcessingError;
use crate::text;

verus! {

/// Number of slots in an epoch.
pub const DEFAULT_SLOTS_PER_EPOCH: u64 = 432_000;

/// Largest number of reward partitions that a boundary block may declare.
pub const MAX_INFLATION_REWARD_PARTITIONS: usize = 4_096;

/// The slots of the epoch that pays the rewards of `epoch`: first slot, and first slot after it.
pub open spec fn payout_bounds(epoch: u64) -> Option<(u64, u64)> {
    if (epoch + 2) * DEFAULT_SLOTS_PER_EPOCH <= u64::MAX {
        Some(
            (
                ((epoch + 1) * DEFAULT_SLOTS_PER_EPOCH) as u64,
                ((epoch + 2) * DEFAULT_SLOTS_PER_EPOCH) as u64,
            ),
        )
    } else {
        None
    }
}

/// The slots of the epoch that pays the rewards of `epoch`, where they fit in 64 bits.
pub fn inflation_epoch_slot_bounds(epoch: u64) -> (r: Option<(u64, u64)>)
    ensures
        r == payout_bounds(epoch),
{
    let last: u64 = u64::MAX / DEFAULT_SLOTS_PER_EPOCH;
    if epoch > last - 2 {
        return None;
    }
    let start_slot: u64 = (epoch + 1) * DEFAULT_SLOTS_PER_EPOCH;
    let end_slot_exclusive: u64 = (epoch + 2) * DEFAULT_SLOTS_PER_EPOCH;
    Some((start_slot, end_slot_exclusive))
}

/// Whether the rewards of an epoch are still being paid at a block height.
pub fn inflation_rewards_period_is_active(
    current_block_height: u64,
    rewards_complete_block_height: u64,
) -> (r: bool)
    ensures
        r == (current_block_height < rewards_complete_block_height),
{
    current_block_height < rewards_complete_block_height
}

/// The first block of the payout epoch.
#[derive(Clone, Copy, Debug)]
pub struct InflationBoundaryRow {
    pub slot: u64,
    pub parent_slot: u64,
    pub parent_blockhash: [u8; 32],
    pub block_height: Option<u64>,
    pub rewards_num_partitions: Option<u64>,
}

/// A block of the payout epoch.
#[derive(Clone, Copy, Debug)]
pub struct InflationSlotRow {
    pub slot: u64,
    pub block_height: Option<u64>,
}

/// A reward as a query returns it.
#[derive(Clone, Copy, Debug)]
pub struct InflationRewardRow {
    pub pubkey: [u8; 32],
    pub effective_slot: u64,
    pub lamports: i64,
    pub post_balance: u64,
    pub commission: Option<u8>,
    pub commission_bps: Option<u16>,
}

/// A reward of a requested address.
#[derive(Clone, Copy, Debug)]
pub struct InflationRewardRecord {
    pub pubkey: [u8; 32],
    pub effective_slot: u64,
    pub lamports: i64,
    pub post_balance: u64,
    pub commission: Option<u8>,
    pub commission_bps: Option<u16>,
}

/// How a lookup ends.
#[derive(Debug)]
pub enum InflationRewardLookupOutcome {
    Complete(Vec<InflationRewardRecord>),
    BoundaryUnavailable { slot: u64 },
    RewardsPeriodActive {
        slot: u64,
        current_block_height: u64,
        rewards_complete_block_height: u64,
    },
}

/// Why a lookup fails.
#[derive(Debug)]
pub enum InflationRewardError {
    EpochOutOfRange { epoch: u64 },
    InvalidBoundary { slot: u64, epoch: u64 },
    BoundaryWithoutHeight { slot: u64 },
    TooManyPartitions { epoch: u64 },
    UnsupportedPartitionCount { epoch: u64, count: u64 },
    UnrequestedBoundaryAddress,
    BoundaryRewardSlot { found: u64, expected: u64 },
    DuplicateBoundaryAddress,
    CompletionHeightOverflow { epoch: u64 },
    PartitionHeightOverflow { epoch: u64 },
    PartitionSlotWithoutHeight { slot: u64 },
    UnexpectedPartitionHeight { height: u64 },
    UnexpectedPartitionSlot { slot: u64 },
    HeightWithSeveralSlots { height: u64 },
    SlotWithSeveralHeights { slot: u64 },
    ProgressMissing { slot: u64 },
    ProgressWithoutHeight { slot: u64 },
    UnexpectedProgress { slot: u64, height: u64 },
    MissingPartitions { epoch: u64, complete_height: u64, heights: Vec<u64> },
    UnrequestedPartitionAddress,
    PartitionRewardSlot { found: u64, expected: u64 },
    DuplicatePartitionAddress,
}

impl InflationRewardError {
    /// The message of an error.
    pub open spec fn text(self) -> Seq<char> {
        match self {
            Self::EpochOutOfRange { epoch } => "epoch "@ + text::dec(epoch as nat) + " is out of range"@,
            Self::InvalidBoundary { slot, epoch } => "slot "@ + text::dec(slot as nat) + " is not a valid epoch boundary for inflation epoch "@ + text::dec(epoch as nat),
            Self::BoundaryWithoutHeight { slot } => "inflation reward boundary slot "@ + text::dec(slot as nat) + " has no block height"@,
            Self::TooManyPartitions { epoch } => "inflation epoch "@ + text::dec(epoch as nat) + " declares too many reward partitions"@,
            Self::UnsupportedPartitionCount { epoch, count } => "inflation epoch "@ + text::dec(epoch as nat) + " declares unsupported reward partition count "@ + text::dec(count as nat),
            Self::UnrequestedBoundaryAddress => "boundary reward query returned an unrequested address"@,
            Self::BoundaryRewardSlot { found, expected } => "boundary reward for requested address came from slot "@ + text::dec(found as nat) + ", expected "@ + text::dec(expected as nat),
            Self::DuplicateBoundaryAddress => "boundary reward query returned a duplicate address"@,
            Self::CompletionHeightOverflow { epoch } => "inflation epoch "@ + text::dec(epoch as nat) + " rewards-complete block height overflowed"@,
            Self::PartitionHeightOverflow { epoch } => "inflation epoch "@ + text::dec(epoch as nat) + " partition block height overflowed"@,
            Self::PartitionSlotWithoutHeight { slot } => "inflation reward partition slot "@ + text::dec(slot as nat) + " has no block height"@,
            Self::UnexpectedPartitionHeight { height } => "partition lookup returned unexpected block height "@ + text::dec(height as nat),
            Self::UnexpectedPartitionSlot { slot } => "partition lookup returned unexpected slot "@ + text::dec(slot as nat),
            Self::HeightWithSeveralSlots { height } => "partition block height "@ + text::dec(height as nat) + " maps to multiple slots"@,
            Self::SlotWithSeveralHeights { slot } => "partition slot "@ + text::dec(slot as nat) + " maps to multiple block heights"@,
            Self::ProgressMissing { slot } => "payout epoch progress disappeared after boundary slot "@ + text::dec(slot as nat) + " was read"@,
            Self::ProgressWithoutHeight { slot } => "payout epoch progress slot "@ + text::dec(slot as nat) + " has no block height"@,
            Self::UnexpectedProgress { slot, height } => "payout epoch progress returned unexpected slot "@ + text::dec(slot as nat) + " at block height "@ + text::dec(height as nat),
            Self::MissingPartitions { epoch, complete_height, heights } => "inflation rewards for epoch "@ + text::dec(epoch as nat) + " reached completion block height "@ + text::dec(complete_height as nat) + ", but required partition block heights ["@ + text::join(text::dec_texts(heights@), ", "@) + "] are missing"@,
            Self::UnrequestedPartitionAddress => "partition reward query returned an unrequested address"@,
            Self::PartitionRewardSlot { found, expected } => "partition reward for requested address came from slot "@ + text::dec(found as nat) + ", expected "@ + text::dec(expected as nat),
            Self::DuplicatePartitionAddress => "partition reward query returned a duplicate address"@,
        }
    }

    /// The message of an error.
    pub fn message(&self) -> (r: String)
        ensures
            r@ == self.text(),
    {
        match self {
            Self::EpochOutOfRange { epoch } => {
                let mut q = "epoch ".to_owned();
                q.append(text::dec_string(*epoch).as_str());
                q.append(" is out of range");
                q
            },
            Self::InvalidBoundary { slot, epoch } => {
                let mut q = "slot ".to_owned();
                q.append(text::dec_string(*slot).as_str());
                q.append(" is not a valid epoch boundary for inflation epoch ");
                q.append(text::dec_string(*epoch).as_str());
                q
            },
            Self::BoundaryWithoutHeight { slot } => {
                let mut q = "inflation reward boundary slot ".to_owned();
                q.append(text::dec_string(*slot).as_str());
                q.append(" has no block height");
                q
            },
            Self::TooManyPartitions { epoch } => {
                let mut q = "inflation epoch ".to_owned();
                q.append(text::dec_string(*epoch).as_str());
                q.append(" declares too many reward partitions");
                q
            },
            Self::UnsupportedPartitionCount { epoch, count } => {
                let mut q = "inflation epoch ".to_owned();
                q.append(text::dec_string(*epoch).as_str());
                q.append(" declares unsupported reward partition count ");
                q.append(text::dec_string(*count).as_str());
                q
            },
            Self::UnrequestedBoundaryAddress => {
                "boundary reward query returned an unrequested address".to_owned()
            },
            Self::BoundaryRewardSlot { found, expected } => {
                let mut q = "boundary reward for requested address came from slot ".to_owned();
                q.append(text::dec_string(*found).as_str());
                q.append(", expected ");
                q.append(text::dec_string(*expected).as_str());
                q
            },
            Self::DuplicateBoundaryAddress => {
                "boundary reward query returned a duplicate address".to_owned()
            },
            Self::CompletionHeightOverflow { epoch } => {
                let mut q = "inflation epoch ".to_owned();
                q.append(text::dec_string(*epoch).as_str());
                q.append(" rewards-complete block height overflowed");
                q
            },
            Self::PartitionHeightOverflow { epoch } => {
                let mut q = "inflation epoch ".to_owned();
                q.append(text::dec_string(*epoch).as_str());
                q.append(" partition block height overflowed");
                q
            },
            Self::PartitionSlotWithoutHeight { slot } => {
                let mut q = "inflation reward partition slot ".to_owned();
                q.append(text::dec_string(*slot).as_str());
                q.append(" has no block height");
                q
            },
            Self::UnexpectedPartitionHeight { height } => {
                let mut q = "partition lookup returned unexpected block height ".to_owned();
                q.append(text::dec_string(*height).as_str());
                q
            },
            Self::UnexpectedPartitionSlot { slot } => {
                let mut q = "partition lookup returned unexpected slot ".to_owned();
                q.append(text::dec_string(*slot).as_str());
                q
            },
            Self::HeightWithSeveralSlots { height } => {
                let mut q = "partition block height ".to_owned();
                q.append(text::dec_string(*height).as_str());
                q.append(" maps to multiple slots");
                q
            },
            Self::SlotWithSeveralHeights { slot } => {
                let mut q = "partition slot ".to_owned();
                q.append(text::dec_string(*slot).as_str());
                q.append(" maps to multiple block heights");
                q
            },
            Self::ProgressMissing { slot } => {
                let mut q = "payout epoch progress disappeared after boundary slot ".to_owned();
                q.append(text::dec_string(*slot).as_str());
                q.append(" was read");
                q
            },
            Self::ProgressWithoutHeight { slot } => {
                let mut q = "payout epoch progress slot ".to_owned();
                q.append(text::dec_string(*slot).as_str());
                q.append(" has no block height");
                q
            },
            Self::UnexpectedProgress { slot, height } => {
                let mut q = "payout epoch progress returned unexpected slot ".to_owned();
                q.append(text::dec_string(*slot).as_str());
                q.append(" at block height ");
                q.append(text::dec_string(*height).as_str());
                q
            },
            Self::MissingPartitions { epoch, complete_height, heights } => {
                let mut q = "inflation rewards for epoch ".to_owned();
                q.append(text::dec_string(*epoch).as_str());
                q.append(" reached completion block height ");
                q.append(text::dec_string(*complete_height).as_str());
                q.append(", but required partition block heights [");
                q.append(text::join_numbers(heights, ", ").as_str());
                q.append("] are missing");
                q
            },
            Self::UnrequestedPartitionAddress => {
                "partition reward query returned an unrequested address".to_owned()
            },
            Self::PartitionRewardSlot { found, expected } => {
                let mut q = "partition reward for requested address came from slot ".to_owned();
                q.append(text::dec_string(*found).as_str());
                q.append(", expected ");
                q.append(text::dec_string(*expected).as_str());
                q
            },
            Self::DuplicatePartitionAddress => {
                "partition reward query returned a duplicate address".to_owned()
            },
        }
    }

    /// The error as the service reports it: a bad epoch is the caller's, the rest is the database's.
    pub fn into_processing_error(self) -> (r: ProcessingError)
        ensures
            r.context() == self.text(),
            r is Deserialization <==> self is EpochOutOfRange,
            r is Database <==> !(self is EpochOutOfRange),
    {
        let context = self.message();
        match self {
            Self::EpochOutOfRange { .. } => ProcessingError::deserialization_msg(context),
            _ => ProcessingError::database_msg(context),
        }
    }
}

/// The record of a returned row.
pub open spec fn record_of(row: InflationRewardRow) -> InflationRewardRecord {
    InflationRewardRecord {
        pubkey: row.pubkey,
        effective_slot: row.effective_slot,
        lamports: row.lamports,
        post_balance: row.post_balance,
        commission: row.commission,
        commission_bps: row.commission_bps,
    }
}

fn record_from(row: InflationRewardRow) -> (r: InflationRewardRecord)
    ensures
        r == record_of(row),
{
    InflationRewardRecord {
        pubkey: row.pubkey,
        effective_slot: row.effective_slot,
        lamports: row.lamports,
        post_balance: row.post_balance,
        commission: row.commission,
        commission_bps: row.commission_bps,
    }
}

/// Whether a reward of an address is among those found.
pub open spec fn reward_known(rewards: Seq<InflationRewardRecord>, key: Seq<u8>) -> bool {
    exists|i: int| 0 <= i < rewards.len() && (#[trigger] rewards[i]).pubkey@ == key
}

/// Whether no address has two rewards.
pub open spec fn rewards_distinct(rewards: Seq<InflationRewardRecord>) -> bool {
    forall|i: int, j: int|
        0 <= i < j < rewards.len() ==> (#[trigger] rewards[i]).pubkey@ != (
        #[trigger] rewards[j]).pubkey@
}

fn reward_is_known(rewards: &Vec<InflationRewardRecord>, key: &[u8; 32]) -> (r: bool)
    ensures
        r == reward_known(rewards@, key@),
{
    let mut i: usize = 0;
    while i < rewards.len()
        invariant
            i <= rewards.len(),
            forall|k: int| 0 <= k < i ==> (#[trigger] rewards@[k]).pubkey@ != key@,
        decreases rewards.len() - i,
    {
        if lists::same_key(&rewards[i].pubkey, key) {
            return true;
        }
        i += 1;
    }
    false
}

/// A lookup whose boundary block is still to be read.
#[derive(Debug)]
pub struct InflationRequest {
    pub epoch: u64,
    pub start_slot: u64,
    pub end_slot_exclusive: u64,
    pub addresses: Vec<[u8; 32]>,
}

impl InflationRequest {
    /// The addresses are distinct and the slots are those of the payout epoch.
    pub open spec fn wf(self) -> bool {
        &&& lists::keys(self.addresses@).no_duplicates()
        &&& self.addresses@.len() > 0
        &&& payout_bounds(self.epoch) == Some((self.start_slot, self.end_slot_exclusive))
    }

    /// Whether an address was asked for.
    pub open spec fn requested(self, key: Seq<u8>) -> bool {
        lists::keys(self.addresses@).contains(key)
    }

    /// Starts a lookup. Without addresses there is nothing to look up.
    pub fn begin(addresses: &[[u8; 32]], epoch: u64) -> (r: Result<
        Option<InflationRequest>,
        InflationRewardError,
    >)
        ensures
            match r {
                Ok(None) => addresses@.len() == 0,
                Ok(Some(q)) => {
                    &&& addresses@.len() > 0
                    &&& q.wf()
                    &&& q.epoch == epoch
                    &&& lists::keys(q.addresses@) == lists::first_occurrences(
                        lists::keys(addresses@),
                    )
                },
                Err(e) => {
                    &&& addresses@.len() > 0
                    &&& payout_bounds(epoch) is None
                    &&& e == (InflationRewardError::EpochOutOfRange { epoch })
                },
            },
    {
        if addresses.len() == 0 {
            return Ok(None);
        }
        let (start_slot, end_slot_exclusive) = match inflation_epoch_slot_bounds(epoch) {
            Some(bounds) => bounds,
            None => {
                return Err(InflationRewardError::EpochOutOfRange { epoch });
            },
        };
        let distinct = lists::distinct_keys(addresses);
        proof {
            lists::law_first_occurrences_distinct_and_complete(lists::keys(addresses@));
            assert(lists::keys(addresses@)[0] == addresses@[0]@);
            assert(lists::keys(addresses@).contains(addresses@[0]@));
            assert(lists::first_occurrences(lists::keys(addresses@)).contains(addresses@[0]@));
        }
        Ok(Some(InflationRequest { epoch, start_slot, end_slot_exclusive, addresses: distinct }))
    }

    /// The query for the boundary block.
    pub fn query(&self, table: &str, settings_clause: &str) -> (q: String)
        ensures
            q@ == inflation_queries::inflation_boundary_query(
                table@,
                self.start_slot,
                self.end_slot_exclusive,
                settings_clause@,
            ),
    {
        build_inflation_boundary_query(
            table,
            self.start_slot,
            self.end_slot_exclusive,
            settings_clause,
        )
    }

    /// What the boundary block decides, in the order in which it is checked.
    pub open spec fn boundary_error(self, row: InflationBoundaryRow) -> Option<
        InflationRewardError,
    > {
        if row.parent_slot >= self.start_slot {
            Some(InflationRewardError::InvalidBoundary { slot: row.slot, epoch: self.epoch })
        } else if row.block_height is None {
            Some(InflationRewardError::BoundaryWithoutHeight { slot: row.slot })
        } else if row.rewards_num_partitions matches Some(n) && n > usize::MAX {
            Some(InflationRewardError::TooManyPartitions { epoch: self.epoch })
        } else if row.rewards_num_partitions matches Some(n) && (n == 0 || n
            > MAX_INFLATION_REWARD_PARTITIONS) {
            Some(
                InflationRewardError::UnsupportedPartitionCount {
                    epoch: self.epoch,
                    count: row.rewards_num_partitions->0,
                },
            )
        } else {
            None
        }
    }

    /// Takes the boundary block. `None` means that the boundary is not available yet.
    pub fn boundary(self, row: Option<InflationBoundaryRow>) -> (r: Result<
        Option<BoundaryRewards>,
        InflationRewardError,
    >)
        requires
            self.wf(),
        ensures
            match row {
                None => r == Ok::<Option<BoundaryRewards>, InflationRewardError>(None),
                Some(b) => match self.boundary_error(b) {
                    Some(e) => r == Err::<Option<BoundaryRewards>, InflationRewardError>(e),
                    None => {
                        &&& r is Ok
                        &&& r->Ok_0 matches Some(s)
                        &&& s.wf()
                        &&& s.request == self
                        &&& s.boundary_slot == b.slot
                        &&& Some(s.boundary_height) == b.block_height
                        &&& s.parent_blockhash == b.parent_blockhash
                        &&& match s.num_partitions {
                            Some(n) => b.rewards_num_partitions == Some(n as u64),
                            None => b.rewards_num_partitions is None,
                        }
                        &&& s.rewards@.len() == 0
                    },
                },
            },
    {
        let row = match row {
            Some(row) => row,
            None => {
                return Ok(None);
            },
        };
        if row.parent_slot >= self.start_slot {
            return Err(
                InflationRewardError::InvalidBoundary { slot: row.slot, epoch: self.epoch },
            );
        }
        let boundary_height: u64 = match row.block_height {
            Some(height) => height,
            None => {
                return Err(InflationRewardError::BoundaryWithoutHeight { slot: row.slot });
            },
        };
        let num_partitions: Option<usize> = match row.rewards_num_partitions {
            Some(count) => {
                if count > usize::MAX as u64 {
                    return Err(InflationRewardError::TooManyPartitions { epoch: self.epoch });
                }
                if count == 0 || count > MAX_INFLATION_REWARD_PARTITIONS as u64 {
                    return Err(
                        InflationRewardError::UnsupportedPartitionCount {
                            epoch: self.epoch,
                            count,
                        },
                    );
                }
                Some(count as usize)
            },
            None => None,
        };
        Ok(
            Some(
                BoundaryRewards {
                    request: self,
                    boundary_slot: row.slot,
                    boundary_height,
                    parent_blockhash: row.parent_blockhash,
                    num_partitions,
                    rewards: Vec::new(),
                },
            ),
        )
    }
}

/// A lookup that collects the rewards paid in the boundary block.
#[derive(Debug)]
pub struct BoundaryRewards {
    pub request: InflationRequest,
    pub boundary_slot: u64,
    pub boundary_height: u64,
    pub parent_blockhash: [u8; 32],
    pub num_partitions: Option<usize>,
    pub rewards: Vec<InflationRewardRecord>,
}

impl BoundaryRewards {
    /// Every reward found belongs to a requested address and to the boundary block, and no
    /// address has two.
    pub open spec fn wf(self) -> bool {
        &&& self.request.wf()
        &&& self.num_partitions matches Some(n) ==> 0 < n <= MAX_INFLATION_REWARD_PARTITIONS
        &&& rewards_distinct(self.rewards@)
        &&& forall|i: int|
            0 <= i < self.rewards@.len() ==> {
                &&& self.request.requested((#[trigger] self.rewards@[i]).pubkey@)
                &&& self.rewards@[i].effective_slot == self.boundary_slot
            }
    }

    /// Which rewards to ask the boundary block for.
    pub fn selection(&self) -> (r: InflationRewardSelection)
        ensures
            r == (if self.num_partitions is Some {
                InflationRewardSelection::VoteOnly
            } else {
                InflationRewardSelection::VoteAndStake
            }),
            inflation_queries::admits(r.predicate(), "voting"@),
            inflation_queries::admits(r.predicate(), "staking"@) <==> self.num_partitions is None,
    {
        proof {
            inflation_queries::law_vote_and_stake_rewards_are_told_apart("staking"@);
        }
        if self.num_partitions.is_some() {
            InflationRewardSelection::VoteOnly
        } else {
            InflationRewardSelection::VoteAndStake
        }
    }

    /// The query for the rewards of the boundary block: those of all requested addresses.
    pub fn query(&self, table: &str, settings_clause: &str) -> (q: String)
        ensures
            q@ == inflation_queries::inflation_rewards_query(
                table@,
                self.request.addresses@,
                seq![self.boundary_slot],
                if self.num_partitions is Some {
                    InflationRewardSelection::VoteOnly
                } else {
                    InflationRewardSelection::VoteAndStake
                },
                settings_clause@,
            ),
    {
        let slots: Vec<u64> = vec![self.boundary_slot];
        assert(slots@ =~= seq![self.boundary_slot]);
        build_inflation_rewards_query(
            table,
            self.request.addresses.as_slice(),
            slots.as_slice(),
            self.selection(),
            settings_clause,
        )
    }

    /// Takes one reward of the boundary block.
    pub fn accept(&mut self, row: InflationRewardRow) -> (r: Result<(), InflationRewardError>)
        requires
            old(self).wf(),
        ensures
            final(self).wf(),
            ({
                let before = *old(self);
                match r {
                    Ok(()) => {
                        &&& before.request.requested(row.pubkey@)
                        &&& row.effective_slot == before.boundary_slot
                        &&& !reward_known(before.rewards@, row.pubkey@)
                        &&& final(self).rewards@ == before.rewards@.push(record_of(row))
                        &&& *final(self) == (BoundaryRewards {
                            rewards: final(self).rewards,
                            ..before
                        })
                    },
                    Err(e) => {
                        &&& *final(self) == before
                        &&& e == (if !before.request.requested(row.pubkey@) {
                            InflationRewardError::UnrequestedBoundaryAddress
                        } else if row.effective_slot != before.boundary_slot {
                            InflationRewardError::BoundaryRewardSlot {
                                found: row.effective_slot,
                                expected: before.boundary_slot,
                            }
                        } else {
                            InflationRewardError::DuplicateBoundaryAddress
                        })
                        &&& !(before.request.requested(row.pubkey@) && row.effective_slot
                            == before.boundary_slot && !reward_known(before.rewards@, row.pubkey@))
                    },
                }
            }),
    {
        let position = lists::position_of_key(&self.request.addresses, &row.pubkey);
        proof {
            if let Some(i) = position {
                assert(lists::keys(self.request.addresses@)[i as int] == row.pubkey@);
            }
        }
        if position.is_none() {
            return Err(InflationRewardError::UnrequestedBoundaryAddress);
        }
        if row.effective_slot != self.boundary_slot {
            return Err(
                InflationRewardError::BoundaryRewardSlot {
                    found: row.effective_slot,
                    expected: self.boundary_slot,
                },
            );
        }
        if reward_is_known(&self.rewards, &row.pubkey) {
            return Err(InflationRewardError::DuplicateBoundaryAddress);
        }
        self.rewards.push(record_from(row));
        Ok(())
    }
}

/// The block height at which the rewards of a partition are paid.
pub open spec fn partition_height(boundary_block_height: u64, partition: usize) -> int {
    boundary_block_height + partition + 1
}

/// Where the stake rewards of some addresses are to be found.
#[derive(Debug)]
pub struct InflationRewardPartitionPlan {
    /// The height of each address, in the order of the addresses.
    pub block_height_by_pubkey: Vec<([u8; 32], u64)>,
    /// The distinct heights, ascending.
    pub required_block_heights: Vec<u64>,
}

/// The heights of a list of addresses with heights.
pub open spec fn heights_of(pairs: Seq<([u8; 32], u64)>) -> Seq<u64> {
    Seq::new(pairs.len(), |i: int| pairs[i].1)
}

/// Whether a plan gives each address the height of its partition.
pub open spec fn plan_follows(
    plan: InflationRewardPartitionPlan,
    addresses: Seq<[u8; 32]>,
    partitions: Seq<usize>,
    boundary_block_height: u64,
) -> bool {
    &&& plan.wf()
    &&& plan.block_height_by_pubkey@.len() == addresses.len()
    &&& forall|i: int|
        0 <= i < addresses.len() ==> {
            &&& (#[trigger] plan.block_height_by_pubkey@[i]).0 == addresses[i]
            &&& plan.block_height_by_pubkey@[i].1 == partition_height(
                boundary_block_height,
                partitions[i],
            )
        }
}

impl InflationRewardPartitionPlan {
    /// The required heights are those of the addresses, each once, ascending.
    pub open spec fn wf(self) -> bool {
        &&& slots::strictly_increasing(self.required_block_heights@)
        &&& slots::same_numbers(
            self.required_block_heights@,
            heights_of(self.block_height_by_pubkey@),
        )
    }
}

/// Plans where to look for the stake rewards of addresses whose partitions are known.
pub fn plan_for_partitions(
    addresses: &[[u8; 32]],
    partitions: &[usize],
    boundary_block_height: u64,
) -> (r: Option<InflationRewardPartitionPlan>)
    requires
        partitions@.len() == addresses@.len(),
    ensures
        match r {
            Some(plan) => plan_follows(
                plan,
                addresses@,
                partitions@,
                boundary_block_height,
            ),
            None => exists|i: int|
                0 <= i < partitions@.len() && partition_height(
                    boundary_block_height,
                    #[trigger] partitions@[i],
                ) > u64::MAX,
        },
{
    let mut pairs: Vec<([u8; 32], u64)> = Vec::new();
    let mut heights: Vec<u64> = Vec::new();
    let mut i: usize = 0;
    while i < addresses.len()
        invariant
            i <= addresses@.len(),
            partitions@.len() == addresses@.len(),
            pairs@.len() == i,
            heights@ == heights_of(pairs@),
            forall|k: int|
                0 <= k < i ==> {
                    &&& (#[trigger] pairs@[k]).0 == addresses@[k]
                    &&& pairs@[k].1 == partition_height(boundary_block_height, partitions@[k])
                },
        decreases addresses@.len() - i,
    {
        let partition: u64 = partitions[i] as u64;
        let height: u64 = match boundary_block_height.checked_add(partition) {
            Some(height) => match height.checked_add(1) {
                Some(height) => height,
                None => {
                    assert(partition_height(boundary_block_height, partitions@[i as int])
                        > u64::MAX);
                    return None;
                },
            },
            None => {
                assert(partition_height(boundary_block_height, partitions@[i as int]) > u64::MAX);
                return None;
            },
        };
        let ghost before = pairs@;
        pairs.push((addresses[i], height));
        heights.push(height);
        proof {
            assert(heights@ =~= heights_of(pairs@));
        }
        i += 1;
    }
    let required_block_heights = slots::normalize_slots(heights);
    Some(InflationRewardPartitionPlan { block_height_by_pubkey: pairs, required_block_heights })
}

/// The partitions of some addresses.
pub open spec fn reward_partitions(
    addresses: Seq<[u8; 32]>,
    num_partitions: usize,
    seed: [u8; 32],
) -> Seq<usize> {
    Seq::new(
        addresses.len(),
        |i: int| hashing::reward_partition(addresses[i]@, num_partitions, seed@),
    )
}

fn partitions_of(addresses: &[[u8; 32]], num_partitions: usize, seed: &[u8; 32]) -> (r: Vec<usize>)
    ensures
        r@ == reward_partitions(addresses@, num_partitions, *seed),
        num_partitions > 0 ==> forall|i: int| 0 <= i < r@.len() ==> #[trigger] r@[i] < num_partitions,
{
    let mut r: Vec<usize> = Vec::new();
    let mut i: usize = 0;
    while i < addresses.len()
        invariant
            i <= addresses@.len(),
            r@ == reward_partitions(addresses@, num_partitions, *seed).take(i as int),
            num_partitions > 0 ==> forall|k: int|
                0 <= k < r@.len() ==> #[trigger] r@[k] < num_partitions,
        decreases addresses@.len() - i,
    {
        r.push(hashing::inflation_reward_partition(&addresses[i], num_partitions, seed));
        i += 1;
        proof {
            let all = reward_partitions(addresses@, num_partitions, *seed);
            assert(all.take(i as int) =~= all.take(i - 1).push(all[i - 1]));
        }
    }
    proof {
        let all = reward_partitions(addresses@, num_partitions, *seed);
        assert(all.take(all.len() as int) =~= all);
    }
    r
}

/// Plans where to look for the stake rewards of some addresses.
pub fn plan_inflation_reward_partitions(
    addresses: &[[u8; 32]],
    num_partitions: usize,
    seed: &[u8; 32],
    boundary_block_height: u64,
) -> (r: Option<InflationRewardPartitionPlan>)
    ensures
        ({
            let partitions = reward_partitions(addresses@, num_partitions, *seed);
            match r {
                Some(plan) => plan_follows(plan, addresses@, partitions, boundary_block_height),
                None => exists|i: int|
                    0 <= i < partitions.len() && partition_height(
                        boundary_block_height,
                        #[trigger] partitions[i],
                    ) > u64::MAX,
            }
        }),
        num_partitions > 0 && boundary_block_height + num_partitions <= u64::MAX ==> r is Some,
{
    let partitions = partitions_of(addresses, num_partitions, seed);
    plan_for_partitions(addresses, &partitions, boundary_block_height)
}

/// What follows the rewards of the boundary block.
#[derive(Debug)]
pub enum InflationNext {
    Complete(Vec<InflationRewardRecord>),
    PartitionSlots(PartitionSlots),
}

impl BoundaryRewards {
    /// The requested addresses without a reward so far, in order.
    pub open spec fn unresolved(self) -> Seq<[u8; 32]> {
        self.request.addresses@.filter(
            |address: [u8; 32]| !reward_known(self.rewards@, address@),
        )
    }

    fn unresolved_addresses(&self) -> (r: Vec<[u8; 32]>)
        ensures
            r@ == self.unresolved(),
    {
        let addresses = &self.request.addresses;
        let ghost missing = |address: [u8; 32]| !reward_known(self.rewards@, address@);
        let mut r: Vec<[u8; 32]> = Vec::new();
        let mut i: usize = 0;
        proof {
            reveal(Seq::filter);
        }
        while i < addresses.len()
            invariant
                i <= addresses.len(),
                addresses@ == self.request.addresses@,
                missing == (|address: [u8; 32]| !reward_known(self.rewards@, address@)),
                r@ == addresses@.take(i as int).filter(missing),
            decreases addresses.len() - i,
        {
            proof {
                reveal(Seq::filter);
                assert(addresses@.take(i + 1).drop_last() =~= addresses@.take(i as int));
            }
            if !reward_is_known(&self.rewards, &addresses[i]) {
                r.push(addresses[i]);
            }
            i += 1;
        }
        proof {
            assert(addresses@.take(addresses.len() as int) =~= addresses@);
        }
        r
    }

    /// Ends the rewards of the boundary block.
    pub fn finish(self) -> (r: Result<InflationNext, InflationRewardError>)
        requires
            self.wf(),
        ensures
            match self.num_partitions {
                None => r == Ok::<InflationNext, InflationRewardError>(
                    InflationNext::Complete(self.rewards),
                ),
                Some(n) => if self.boundary_height + n + 1 > u64::MAX {
                    r == Err::<InflationNext, InflationRewardError>(
                        InflationRewardError::CompletionHeightOverflow {
                            epoch: self.request.epoch,
                        },
                    )
                } else if self.unresolved().len() == 0 {
                    r == Ok::<InflationNext, InflationRewardError>(
                        InflationNext::Complete(self.rewards),
                    )
                } else {
                    &&& r is Ok
                    &&& r->Ok_0 matches InflationNext::PartitionSlots(s)
                    &&& s.wf()
                    &&& s.boundary == self
                    &&& s.rewards_complete_block_height == self.boundary_height + n + 1
                    &&& s.unresolved@ == self.unresolved()
                    &&& plan_follows(
                        s.plan,
                        self.unresolved(),
                        reward_partitions(self.unresolved(), n, self.parent_blockhash),
                        self.boundary_height,
                    )
                    &&& s.slot_by_block_height@ == Map::<u64, u64>::empty()
                    &&& s.block_height_by_slot@ == Map::<u64, u64>::empty()
                },
            },
    {
        let num_partitions: usize = match self.num_partitions {
            Some(count) => count,
            None => {
                return Ok(InflationNext::Complete(self.rewards));
            },
        };
        let rewards_complete_block_height: u64 = match self.boundary_height.checked_add(
            num_partitions as u64,
        ) {
            Some(height) => match height.checked_add(1) {
                Some(height) => height,
                None => {
                    return Err(
                        InflationRewardError::CompletionHeightOverflow {
                            epoch: self.request.epoch,
                        },
                    );
                },
            },
            None => {
                return Err(
                    InflationRewardError::CompletionHeightOverflow { epoch: self.request.epoch },
                );
            },
        };
        let unresolved = self.unresolved_addresses();
        if unresolved.len() == 0 {
            return Ok(InflationNext::Complete(self.rewards));
        }
        let plan = match plan_inflation_reward_partitions(
            &unresolved,
            num_partitions,
            &self.parent_blockhash,
            self.boundary_height,
        ) {
            Some(plan) => plan,
            None => {
                return Err(
                    InflationRewardError::PartitionHeightOverflow { epoch: self.request.epoch },
                );
            },
        };
        proof {
            lemma_unresolved(self);
        }
        Ok(
            InflationNext::PartitionSlots(
                PartitionSlots {
                    boundary: self,
                    rewards_complete_block_height,
                    unresolved,
                    plan,
                    slot_by_block_height: HashMap::new(),
                    block_height_by_slot: HashMap::new(),
                },
            ),
        )
    }
}

/// The unresolved addresses are requested, distinct and without a reward.
proof fn lemma_unresolved(b: BoundaryRewards)
    requires
        b.wf(),
    ensures
        lists::keys(b.unresolved()).no_duplicates(),
        forall|i: int|
            0 <= i < b.unresolved().len() ==> {
                &&& b.request.requested((#[trigger] b.unresolved()[i])@)
                &&& !reward_known(b.rewards@, b.unresolved()[i]@)
            },
{
    let missing = |address: [u8; 32]| !reward_known(b.rewards@, address@);
    lemma_filter_keys(b.request.addresses@, missing);
}

proof fn lemma_filter_keys(s: Seq<[u8; 32]>, p: spec_fn([u8; 32]) -> bool)
    requires
        lists::keys(s).no_duplicates(),
    ensures
        lists::keys(s.filter(p)).no_duplicates(),
        forall|i: int|
            0 <= i < s.filter(p).len() ==> {
                &&& lists::keys(s).contains((#[trigger] s.filter(p)[i])@)
                &&& p(s.filter(p)[i])
            },
    decreases s.len(),
{
    reveal(Seq::filter);
    if s.len() > 0 {
        let init = s.drop_last();
        assert(lists::keys(init) =~= lists::keys(s).drop_last());
        assert forall|i: int, j: int|
            0 <= i < lists::keys(init).len() && 0 <= j < lists::keys(init).len() && i
                != j implies lists::keys(init)[i] != lists::keys(init)[j] by {
            assert(lists::keys(s)[i] != lists::keys(s)[j]);
        }
        lemma_filter_keys(init, p);
        let r = s.filter(p);
        let f = init.filter(p);
        assert forall|i: int| 0 <= i < r.len() implies {
            &&& lists::keys(s).contains((#[trigger] r[i])@)
            &&& p(r[i])
        } by {
            if i < f.len() {
                assert(r[i] == f[i]);
                let k = choose|k: int|
                    0 <= k < lists::keys(init).len() && lists::keys(init)[k] == f[i]@;
                assert(lists::keys(s)[k] == r[i]@);
            } else {
                assert(lists::keys(s)[s.len() - 1] == r[i]@);
            }
        }
        assert forall|i: int, j: int|
            0 <= i < lists::keys(r).len() && 0 <= j < lists::keys(r).len() && i
                != j implies lists::keys(r)[i] != lists::keys(r)[j] by {
            if i < f.len() && j < f.len() {
                assert(lists::keys(f)[i] != lists::keys(f)[j]);
            } else {
                let m = if i < f.len() {
                    i
                } else {
                    j
                };
                assert(lists::keys(init).contains(f[m]@));
                let k = choose|k: int|
                    0 <= k < lists::keys(init).len() && lists::keys(init)[k] == f[m]@;
                assert(lists::keys(s)[k] != lists::keys(s)[s.len() - 1]);
            }
        }
    }
}

/// A lookup that collects the blocks at the heights of the plan.
#[derive(Debug)]
pub struct PartitionSlots {
    pub boundary: BoundaryRewards,
    pub rewards_complete_block_height: u64,
    pub unresolved: Vec<[u8; 32]>,
    pub plan: InflationRewardPartitionPlan,
    pub slot_by_block_height: HashMap<u64, u64>,
    pub block_height_by_slot: HashMap<u64, u64>,
}

/// Whether two maps are the inverse of each other.
pub open spec fn inverse_maps(a: Map<u64, u64>, b: Map<u64, u64>) -> bool {
    &&& forall|x: u64| #[trigger] a.contains_key(x) ==> b.contains_key(a[x]) && b[a[x]] == x
    &&& forall|y: u64| #[trigger] b.contains_key(y) ==> a.contains_key(b[y]) && a[b[y]] == y
}

impl PartitionSlots {
    /// The plan covers the unresolved addresses, and each block found has a required height and
    /// lies after the boundary within the payout epoch; heights and slots match one to one.
    pub open spec fn wf(self) -> bool {
        &&& self.boundary.wf()
        &&& self.unresolved@.len() > 0
        &&& lists::keys(self.unresolved@).no_duplicates()
        &&& forall|i: int|
            0 <= i < self.unresolved@.len() ==> {
                &&& self.boundary.request.requested((#[trigger] self.unresolved@[i])@)
                &&& !reward_known(self.boundary.rewards@, self.unresolved@[i]@)
            }
        &&& self.plan.wf()
        &&& self.plan.block_height_by_pubkey@.len() == self.unresolved@.len()
        &&& forall|i: int|
            0 <= i < self.unresolved@.len() ==> (
            #[trigger] self.plan.block_height_by_pubkey@[i]).0 == self.unresolved@[i]
        &&& inverse_maps(self.slot_by_block_height@, self.block_height_by_slot@)
        &&& forall|h: u64| #[trigger]
            self.slot_by_block_height@.contains_key(h) ==> {
                &&& self.plan.required_block_heights@.contains(h)
                &&& self.boundary.boundary_slot < self.slot_by_block_height@[h]
                    < self.boundary.request.end_slot_exclusive
            }
    }

    /// What is wrong with a block, in the order in which it is checked.
    pub open spec fn slot_error(self, row: InflationSlotRow) -> Option<InflationRewardError> {
        match row.block_height {
            None => Some(InflationRewardError::PartitionSlotWithoutHeight { slot: row.slot }),
            Some(height) => if !self.plan.required_block_heights@.contains(height) {
                Some(InflationRewardError::UnexpectedPartitionHeight { height })
            } else if row.slot <= self.boundary.boundary_slot || row.slot
                >= self.boundary.request.end_slot_exclusive {
                Some(InflationRewardError::UnexpectedPartitionSlot { slot: row.slot })
            } else if self.slot_by_block_height@.contains_key(height)
                && self.slot_by_block_height@[height] != row.slot {
                Some(InflationRewardError::HeightWithSeveralSlots { height })
            } else if self.block_height_by_slot@.contains_key(row.slot)
                && self.block_height_by_slot@[row.slot] != height {
                Some(InflationRewardError::SlotWithSeveralHeights { slot: row.slot })
            } else {
                None
            },
        }
    }

    /// The query for the slots of the heights at which rewards are due.
    pub fn query(&self, table: &str, settings_clause: &str) -> (q: String)
        ensures
            q@ == inflation_queries::inflation_partition_slots_query(
                table@,
                self.boundary.boundary_slot,
                self.boundary.request.end_slot_exclusive,
                self.plan.required_block_heights@,
                settings_clause@,
            ),
    {
        build_inflation_partition_slots_query(
            table,
            self.boundary.boundary_slot,
            self.boundary.request.end_slot_exclusive,
            self.plan.required_block_heights.as_slice(),
            settings_clause,
        )
    }

    /// Takes one block.
    pub fn accept(&mut self, row: InflationSlotRow) -> (r: Result<(), InflationRewardError>)
        requires
            old(self).wf(),
        ensures
            final(self).wf(),
            match old(self).slot_error(row) {
                Some(e) => r == Err::<(), InflationRewardError>(e) && *final(self) == *old(self),
                None => {
                    &&& r is Ok
                    &&& final(self).slot_by_block_height@ == old(self).slot_by_block_height@.insert(
                        row.block_height->0,
                        row.slot,
                    )
                    &&& final(self).block_height_by_slot@ == old(self).block_height_by_slot@.insert(
                        row.slot,
                        row.block_height->0,
                    )
                    &&& *final(self) == (PartitionSlots {
                        slot_by_block_height: final(self).slot_by_block_height,
                        block_height_by_slot: final(self).block_height_by_slot,
                        ..*old(self)
                    })
                },
            },
    {
        let height: u64 = match row.block_height {
            Some(height) => height,
            None => {
                return Err(InflationRewardError::PartitionSlotWithoutHeight { slot: row.slot });
            },
        };
        if !contains_number(&self.plan.required_block_heights, height) {
            return Err(InflationRewardError::UnexpectedPartitionHeight { height });
        }
        if row.slot <= self.boundary.boundary_slot || row.slot
            >= self.boundary.request.end_slot_exclusive {
            return Err(InflationRewardError::UnexpectedPartitionSlot { slot: row.slot });
        }
        if let Some(previous_slot) = self.slot_by_block_height.get(&height) {
            if *previous_slot != row.slot {
                return Err(InflationRewardError::HeightWithSeveralSlots { height });
            }
        }
        if let Some(previous_height) = self.block_height_by_slot.get(&row.slot) {
            if *previous_height != height {
                return Err(InflationRewardError::SlotWithSeveralHeights { slot: row.slot });
            }
        }
        self.slot_by_block_height.insert(height, row.slot);
        self.block_height_by_slot.insert(row.slot, height);
        Ok(())
    }

    /// The required heights at which no block was found, ascending.
    pub open spec fn missing_heights(self) -> Seq<u64> {
        self.plan.required_block_heights@.filter(
            |height: u64| !self.slot_by_block_height@.contains_key(height),
        )
    }

    fn missing_block_heights(&self) -> (r: Vec<u64>)
        ensures
            r@ == self.missing_heights(),
    {
        let heights = &self.plan.required_block_heights;
        let ghost missing = |height: u64| !self.slot_by_block_height@.contains_key(height);
        let mut r: Vec<u64> = Vec::new();
        let mut i: usize = 0;
        proof {
            reveal(Seq::filter);
        }
        while i < heights.len()
            invariant
                i <= heights.len(),
                heights@ == self.plan.required_block_heights@,
                missing == (|height: u64| !self.slot_by_block_height@.contains_key(height)),
                r@ == heights@.take(i as int).filter(missing),
            decreases heights.len() - i,
        {
            proof {
                reveal(Seq::filter);
                assert(heights@.take(i + 1).drop_last() =~= heights@.take(i as int));
            }
            let height: u64 = heights[i];
            if !self.slot_by_block_height.contains_key(&height) {
                r.push(height);
            }
            i += 1;
        }
        proof {
            assert(heights@.take(heights.len() as int) =~= heights@);
        }
        r
    }

    /// Ends the blocks of the partitions: asks for the progress of the payout where one is
    /// missing, and for the rewards in exactly those blocks where none is.
    pub fn finish(self) -> (r: PartitionStep)
        requires
            self.wf(),
        ensures
            if self.missing_heights().len() > 0 {
                &&& r matches PartitionStep::Progress(s)
                &&& s.epoch == self.boundary.request.epoch
                &&& s.boundary_slot == self.boundary.boundary_slot
                &&& s.boundary_height == self.boundary.boundary_height
                &&& s.end_slot_exclusive == self.boundary.request.end_slot_exclusive
                &&& s.rewards_complete_block_height == self.rewards_complete_block_height
                &&& s.missing@ == self.missing_heights()
            } else {
                &&& r matches PartitionStep::Rewards(s)
                &&& s.wf()
                &&& s.boundary == self.boundary
                &&& s.unresolved == self.unresolved
                &&& s.expected@.len() == self.unresolved@.len()
                &&& forall|i: int|
                    0 <= i < self.unresolved@.len() ==> #[trigger] s.expected@[i]
                        == self.slot_by_block_height@[self.plan.block_height_by_pubkey@[i].1]
                &&& s.rewards@.len() == 0
            },
    {
        let missing = self.missing_block_heights();
        if missing.len() > 0 {
            return PartitionStep::Progress(
                PartitionProgress {
                    epoch: self.boundary.request.epoch,
                    boundary_slot: self.boundary.boundary_slot,
                    boundary_height: self.boundary.boundary_height,
                    end_slot_exclusive: self.boundary.request.end_slot_exclusive,
                    rewards_complete_block_height: self.rewards_complete_block_height,
                    missing,
                },
            );
        }
        let mut expected: Vec<u64> = Vec::new();
        let mut i: usize = 0;
        while i < self.unresolved.len()
            invariant
                self.wf(),
                self.missing_heights().len() == 0,
                i <= self.unresolved.len(),
                expected@.len() == i,
                forall|k: int|
                    0 <= k < i ==> #[trigger] expected@[k]
                        == self.slot_by_block_height@[self.plan.block_height_by_pubkey@[k].1],
                forall|k: int|
                    0 <= k < i ==> self.boundary.boundary_slot < #[trigger] expected@[k]
                        < self.boundary.request.end_slot_exclusive,
            decreases self.unresolved.len() - i,
        {
            let height: u64 = self.plan.block_height_by_pubkey[i].1;
            proof {
                assert(heights_of(self.plan.block_height_by_pubkey@)[i as int] == height);
                assert(heights_of(self.plan.block_height_by_pubkey@).contains(height));
                assert(self.plan.required_block_heights@.contains(height));
                lemma_nothing_filtered(
                    self.plan.required_block_heights@,
                    |h: u64| !self.slot_by_block_height@.contains_key(h),
                    height,
                );
            }
            match self.slot_by_block_height.get(&height) {
                Some(slot) => expected.push(*slot),
                None => (),
            }
            i += 1;
        }
        let selected_slots = slots::normalize_slots(clone_numbers(&expected));
        PartitionStep::Rewards(
            PartitionRewards {
                boundary: self.boundary,
                unresolved: self.unresolved,
                expected,
                selected_slots,
                rewards: Vec::new(),
            },
        )
    }
}

proof fn lemma_nothing_filtered(s: Seq<u64>, p: spec_fn(u64) -> bool, x: u64)
    requires
        s.filter(p).len() == 0,
        s.contains(x),
    ensures
        !p(x),
    decreases s.len(),
{
    reveal(Seq::filter);
    let k = choose|k: int| 0 <= k < s.len() && s[k] == x;
    if k < s.len() - 1 {
        assert(s.drop_last()[k] == x);
        lemma_nothing_filtered(s.drop_last(), p, x);
    }
}

fn contains_number(v: &Vec<u64>, x: u64) -> (r: bool)
    ensures
        r == v@.contains(x),
{
    let mut i: usize = 0;
    while i < v.len()
        invariant
            i <= v.len(),
            forall|k: int| 0 <= k < i ==> v@[k] != x,
        decreases v.len() - i,
    {
        if v[i] == x {
            assert(v@[i as int] == x);
            return true;
        }
        i += 1;
    }
    false
}

fn clone_numbers(v: &Vec<u64>) -> (r: Vec<u64>)
    ensures
        r@ == v@,
{
    let mut r: Vec<u64> = Vec::new();
    let mut i: usize = 0;
    while i < v.len()
        invariant
            i <= v.len(),
            r@ == v@.take(i as int),
        decreases v.len() - i,
    {
        r.push(v[i]);
        i += 1;
    }
    r
}

/// What follows the blocks of the partitions.
#[derive(Debug)]
pub enum PartitionStep {
    Progress(PartitionProgress),
    Rewards(PartitionRewards),
}

/// A lookup that waits for the latest block of the payout epoch.
#[derive(Debug)]
pub struct PartitionProgress {
    pub epoch: u64,
    pub boundary_slot: u64,
    pub boundary_height: u64,
    pub end_slot_exclusive: u64,
    pub rewards_complete_block_height: u64,
    pub missing: Vec<u64>,
}

impl PartitionProgress {
    /// The query for the newest block of the epoch.
    pub fn query(&self, table: &str, settings_clause: &str) -> (q: String)
        ensures
            q@ == inflation_queries::inflation_progress_query(
                table@,
                self.boundary_slot,
                self.end_slot_exclusive,
                settings_clause@,
            ),
    {
        build_inflation_progress_query(
            table,
            self.boundary_slot,
            self.end_slot_exclusive,
            settings_clause,
        )
    }

    /// Decides on the latest block: the payout is still under way, or blocks are missing.
    pub fn observe(self, row: Option<InflationSlotRow>) -> (r: Result<
        InflationRewardLookupOutcome,
        InflationRewardError,
    >)
        ensures
            r == (match row {
                None => Err::<InflationRewardLookupOutcome, InflationRewardError>(
                    InflationRewardError::ProgressMissing { slot: self.boundary_slot },
                ),
                Some(progress) => match progress.block_height {
                    None => Err(
                        InflationRewardError::ProgressWithoutHeight { slot: progress.slot },
                    ),
                    Some(height) => if progress.slot < self.boundary_slot || progress.slot
                        >= self.end_slot_exclusive || height < self.boundary_height {
                        Err(
                            InflationRewardError::UnexpectedProgress {
                                slot: progress.slot,
                                height,
                            },
                        )
                    } else if height < self.rewards_complete_block_height {
                        Ok(
                            InflationRewardLookupOutcome::RewardsPeriodActive {
                                slot: progress.slot,
                                current_block_height: height,
                                rewards_complete_block_height: self.rewards_complete_block_height,
                            },
                        )
                    } else {
                        Err(
                            InflationRewardError::MissingPartitions {
                                epoch: self.epoch,
                                complete_height: self.rewards_complete_block_height,
                                heights: self.missing,
                            },
                        )
                    },
                },
            }),
    {
        let progress = match row {
            Some(progress) => progress,
            None => {
                return Err(InflationRewardError::ProgressMissing { slot: self.boundary_slot });
            },
        };
        let current_block_height: u64 = match progress.block_height {
            Some(height) => height,
            None => {
                return Err(InflationRewardError::ProgressWithoutHeight { slot: progress.slot });
            },
        };
        if progress.slot < self.boundary_slot || progress.slot >= self.end_slot_exclusive
            || current_block_height < self.boundary_height {
            return Err(
                InflationRewardError::UnexpectedProgress {
                    slot: progress.slot,
                    height: current_block_height,
                },
            );
        }
        if inflation_rewards_period_is_active(
            current_block_height,
            self.rewards_complete_block_height,
        ) {
            return Ok(
                InflationRewardLookupOutcome::RewardsPeriodActive {
                    slot: progress.slot,
                    current_block_height,
                    rewards_complete_block_height: self.rewards_complete_block_height,
                },
            );
        }
        Err(
            InflationRewardError::MissingPartitions {
                epoch: self.epoch,
                complete_height: self.rewards_complete_block_height,
                heights: self.missing,
            },
        )
    }
}

/// A lookup that collects the rewards paid in the blocks of the partitions.
#[derive(Debug)]
pub struct PartitionRewards {
    pub boundary: BoundaryRewards,
    pub unresolved: Vec<[u8; 32]>,
    /// The slot in which each unresolved address is paid.
    pub expected: Vec<u64>,
    /// The distinct slots to read, ascending.
    pub selected_slots: Vec<u64>,
    pub rewards: Vec<InflationRewardRecord>,
}

impl PartitionRewards {
    /// Whether an address is expected to be paid in a slot.
    pub open spec fn expects(self, key: Seq<u8>, slot: u64) -> bool {
        exists|i: int|
            0 <= i < self.unresolved@.len() && (#[trigger] self.unresolved@[i])@ == key
                && self.expected@[i] == slot
    }

    /// Whether an address is still to be resolved.
    pub open spec fn awaited(self, key: Seq<u8>) -> bool {
        lists::keys(self.unresolved@).contains(key)
    }

    /// Every reward found belongs to an unresolved address and to the slot expected of it, and no
    /// address has two.
    pub open spec fn wf(self) -> bool {
        &&& self.boundary.wf()
        &&& self.expected@.len() == self.unresolved@.len()
        &&& lists::keys(self.unresolved@).no_duplicates()
        &&& forall|i: int|
            0 <= i < self.unresolved@.len() ==> {
                &&& self.boundary.request.requested((#[trigger] self.unresolved@[i])@)
                &&& !reward_known(self.boundary.rewards@, self.unresolved@[i]@)
            }
        &&& forall|i: int|
            0 <= i < self.expected@.len() ==> self.boundary.boundary_slot < (
            #[trigger] self.expected@[i]) < self.boundary.request.end_slot_exclusive
        &&& slots::strictly_increasing(self.selected_slots@)
        &&& slots::same_numbers(self.selected_slots@, self.expected@)
        &&& rewards_distinct(self.rewards@)
        &&& forall|i: int|
            0 <= i < self.rewards@.len() ==> self.expects(
                (#[trigger] self.rewards@[i]).pubkey@,
                self.rewards@[i].effective_slot,
            )
    }

    /// The query for the stake rewards of the addresses that none is known of, in the slots in
    /// which they are paid.
    pub fn query(&self, table: &str, settings_clause: &str) -> (q: String)
        ensures
            q@ == inflation_queries::inflation_rewards_query(
                table@,
                self.unresolved@,
                self.selected_slots@,
                InflationRewardSelection::StakeOnly,
                settings_clause@,
            ),
    {
        build_inflation_rewards_query(
            table,
            self.unresolved.as_slice(),
            self.selected_slots.as_slice(),
            InflationRewardSelection::StakeOnly,
            settings_clause,
        )
    }

    /// Takes one reward of the partitions.
    pub fn accept(&mut self, row: InflationRewardRow) -> (r: Result<(), InflationRewardError>)
        requires
            old(self).wf(),
        ensures
            final(self).wf(),
            ({
                let before = *old(self);
                let key = row.pubkey@;
                match r {
                    Ok(()) => {
                        &&& before.expects(key, row.effective_slot)
                        &&& !reward_known(before.rewards@, key)
                        &&& final(self).rewards@ == before.rewards@.push(record_of(row))
                        &&& *final(self) == (PartitionRewards {
                            rewards: final(self).rewards,
                            ..before
                        })
                    },
                    Err(e) => {
                        &&& *final(self) == before
                        &&& match e {
                            InflationRewardError::UnrequestedPartitionAddress => !before.awaited(
                                key,
                            ),
                            InflationRewardError::PartitionRewardSlot { found, expected } => {
                                &&& found == row.effective_slot
                                &&& found != expected
                                &&& before.expects(key, expected)
                            },
                            InflationRewardError::DuplicatePartitionAddress => {
                                &&& before.expects(key, row.effective_slot)
                                &&& reward_known(before.rewards@, key)
                            },
                            _ => false,
                        }
                    },
                }
            }),
    {
        let index: usize = match lists::position_of_key(&self.unresolved, &row.pubkey) {
            Some(index) => index,
            None => {
                return Err(InflationRewardError::UnrequestedPartitionAddress);
            },
        };
        let expected: u64 = self.expected[index];
        assert(self.unresolved@[index as int]@ == row.pubkey@);
        assert(self.expects(row.pubkey@, expected));
        if row.effective_slot != expected {
            return Err(
                InflationRewardError::PartitionRewardSlot { found: row.effective_slot, expected },
            );
        }
        if reward_is_known(&self.rewards, &row.pubkey) {
            return Err(InflationRewardError::DuplicatePartitionAddress);
        }
        self.rewards.push(record_from(row));
        proof {
            assert forall|i: int| 0 <= i < self.rewards@.len() implies self.expects(
                (#[trigger] self.rewards@[i]).pubkey@,
                self.rewards@[i].effective_slot,
            ) by {
                if i < old(self).rewards@.len() {
                    assert(old(self).expects(
                        old(self).rewards@[i].pubkey@,
                        old(self).rewards@[i].effective_slot,
                    ));
                    let k = choose|k: int|
                        0 <= k < old(self).unresolved@.len() && (
                        #[trigger] old(self).unresolved@[k])@ == old(self).rewards@[i].pubkey@
                            && old(self).expected@[k] == old(self).rewards@[i].effective_slot;
                    assert(self.unresolved@[k]@ == self.rewards@[i].pubkey@);
                } else {
                    assert(self.unresolved@[index as int]@ == row.pubkey@);
                }
            }
        }
        Ok(())
    }

    /// Ends the lookup: the rewards of the boundary block, then those of the partitions.
    pub fn finish(self) -> (r: Vec<InflationRewardRecord>)
        requires
            self.wf(),
        ensures
            r@ == self.boundary.rewards@ + self.rewards@,
    {
        let mut all = self.boundary.rewards;
        let mut rest = self.rewards;
        all.append(&mut rest);
        all
    }
}

/// The rewards that end a lookup are those of requested addresses, at most one for each, and each
/// was paid in the boundary block or in the slot expected of its address.
pub proof fn law_lookup_rewards_are_requested_and_distinct(s: PartitionRewards)
    requires
        s.wf(),
    ensures
        rewards_distinct(s.boundary.rewards@ + s.rewards@),
        forall|i: int|
            0 <= i < (s.boundary.rewards@ + s.rewards@).len() ==> {
                let record = #[trigger] (s.boundary.rewards@ + s.rewards@)[i];
                &&& s.boundary.request.requested(record.pubkey@)
                &&& record.effective_slot == s.boundary.boundary_slot || s.expects(
                    record.pubkey@,
                    record.effective_slot,
                )
            },
{
    let a = s.boundary.rewards@;
    let b = s.rewards@;
    assert forall|i: int| 0 <= i < b.len() implies s.boundary.request.requested(
        (#[trigger] b[i]).pubkey@,
    ) && !reward_known(a, b[i].pubkey@) by {
        assert(s.expects(b[i].pubkey@, b[i].effective_slot));
    }
    assert forall|i: int, j: int| 0 <= i < j < (a + b).len() implies (#[trigger] (a
        + b)[i]).pubkey@ != (#[trigger] (a + b)[j]).pubkey@ by {
        if j < a.len() {
            assert(a[i].pubkey@ != a[j].pubkey@);
        } else if i >= a.len() {
            assert(b[i - a.len()].pubkey@ != b[j - a.len()].pubkey@);
        } else {
            assert(!reward_known(a, b[j - a.len()].pubkey@));
            assert(a[i].pubkey@ != b[j - a.len()].pubkey@);
        }
    }
    assert forall|i: int| 0 <= i < (a + b).len() implies {
        let record = #[trigger] (a + b)[i];
        &&& s.boundary.request.requested(record.pubkey@)
        &&& record.effective_slot == s.boundary.boundary_slot || s.expects(
            record.pubkey@,
            record.effective_slot,
        )
    } by {
        if i < a.len() {
            assert((a + b)[i] == a[i]);
        } else {
            assert((a + b)[i] == b[i - a.len()]);
        }
    }
}

/// The heights at which stake rewards are paid follow the boundary block and precede the height
/// at which the payout is complete.
pub proof fn law_partition_heights_before_completion(
    boundary_height: u64,
    num_partitions: usize,
    partition: usize,
)
    requires
        partition < num_partitions,
    ensures
        boundary_height < partition_height(boundary_height, partition) < boundary_height
            + num_partitions + 1,
{
}

/// The rewards of an epoch are paid in the next one: exactly its slots are looked through.
pub proof fn law_rewards_are_paid_in_the_next_epoch(epoch: u64, slot: u64)
    ensures
        payout_bounds(epoch) matches Some((first, after)) ==> (first <= slot < after <==> slot as int
            / 432_000 == epoch + 1),
        payout_bounds(epoch) matches Some((first, after)) ==> after - first == 432_000,
        payout_bounds(epoch) is None <==> (epoch + 2) * 432_000 > u64::MAX,
{
}

/// A boundary block is accepted exactly where its parent lies before the epoch, its height is known, and
/// the number of partitions, where there is one, is at least one and at most the limit.
pub proof fn law_boundary_is_the_first_of_its_epoch(
    request: InflationRequest,
    row: InflationBoundaryRow,
)
    ensures
        request.boundary_error(row) is None <==> {
            &&& row.parent_slot < request.start_slot
            &&& row.block_height is Some
            &&& row.rewards_num_partitions matches Some(n) ==> 1 <= n <= 4_096
        },
{
}

/// A reward is kept as it was returned.
pub proof fn law_reward_is_kept_as_returned(row: InflationRewardRow)
    ensures
        record_of(row).pubkey == row.pubkey,
        record_of(row).effective_slot == row.effective_slot,
        record_of(row).lamports == row.lamports,
        record_of(row).post_balance == row.post_balance,
        record_of(row).commission == row.commission,
        record_of(row).commission_bps == row.commission_bps,
{
}

/// The rewards of a partition are paid one block after those of the partition before it, and those of the
/// first in the block after the boundary.
pub proof fn law_partitions_are_paid_block_by_block(boundary_block_height: u64, partition: usize)
    ensures
        partition_height(boundary_block_height, 0) == boundary_block_height + 1,
        partition < usize::MAX ==> partition_height(boundary_block_height, (partition + 1) as usize)
            == partition_height(boundary_block_height, partition) + 1,
{
}

/// The addresses that are still to be resolved are those asked for without a reward so far.
pub proof fn law_unresolved_addresses_have_no_reward(s: BoundaryRewards, address: [u8; 32])
    ensures
        s.unresolved().contains(address) <==> s.request.addresses@.contains(address) && forall|k: int|
            0 <= k < s.rewards@.len() ==> (#[trigger] s.rewards@[k]).pubkey@ != address@,
{
    broadcast use vstd::seq_lib::group_filter_ensures;

    let test = |a: [u8; 32]| !reward_known(s.rewards@, a@);
    let all = s.request.addresses@;
    if all.contains(address) && test(address) {
        let i = all.index_of(address);
        assert(all.filter(test).contains(all[i]));
    }
    if s.unresolved().contains(address) {
        let i = s.unresolved().index_of(address);
        assert(test(all.filter(test)[i]));
        all.lemma_filter_contains_rev(test, address);
    }
}

/// A block of a partition is accepted exactly where it has one of the heights that are asked for, lies
/// behind the boundary and within the epoch, and no other block is known at its height or in its slot.
pub proof fn law_partition_blocks_follow_the_boundary(s: PartitionSlots, row: InflationSlotRow)
    ensures
        s.slot_error(row) is None <==> (row.block_height matches Some(height) && {
            &&& s.plan.required_block_heights@.contains(height)
            &&& s.boundary.boundary_slot < row.slot < s.boundary.request.end_slot_exclusive
            &&& s.slot_by_block_height@.contains_key(height) ==> s.slot_by_block_height@[height] == row.slot
            &&& s.block_height_by_slot@.contains_key(row.slot) ==> s.block_height_by_slot@[row.slot]
                == height
        }),
{
}

} // verus!
