//! The queries of an inflation reward lookup.
use vstd::prelude::*;

use crate::clickhouse::slots::SLOT_SHARD_DIVISOR;
use crate::clickhouse::sql;
use crate::text;

verus! {

/// Which reward kinds a query collects.
#[derive(Clone, Copy, Debug, PartialEq, Eq, Structural)]
pub enum InflationRewardSelection {
    VoteOnly,
    VoteAndStake,
    StakeOnly,
}

impl InflationRewardSelection {
    /// The condition on the reward kind.
    pub open spec fn predicate(self) -> Seq<char> {
        match self {
            Self::VoteOnly => "lowerUTF8(ifNull(reward.4, '')) = 'voting'"@,
            Self::VoteAndStake => "lowerUTF8(ifNull(reward.4, '')) IN ('staking', 'voting')"@,
            Self::StakeOnly => "lowerUTF8(ifNull(reward.4, '')) = 'staking'"@,
        }
    }

    /// The condition on the reward kind, as SQL.
    pub fn sql_predicate(self) -> (r: &'static str)
        ensures
            r@ == self.predicate(),
    {
        match self {
            Self::VoteOnly => "lowerUTF8(ifNull(reward.4, '')) = 'voting'",
            Self::VoteAndStake => "lowerUTF8(ifNull(reward.4, '')) IN ('staking', 'voting')",
            Self::StakeOnly => "lowerUTF8(ifNull(reward.4, '')) = 'staking'",
        }
    }
}

/// The SQL literal of an address.
pub open spec fn address_literal(address: [u8; 32]) -> Seq<char> {
    "toFixedString(unhex('"@ + text::hex_upper(address@) + "'), 32)"@
}

/// The SQL literals of some addresses.
pub open spec fn address_literals(addresses: Seq<[u8; 32]>) -> Seq<Seq<char>> {
    Seq::new(addresses.len(), |i: int| address_literal(addresses[i]))
}

fn address_literal_texts(addresses: &[[u8; 32]]) -> (r: Vec<String>)
    ensures
        text::texts(r@) == address_literals(addresses@),
{
    let mut r: Vec<String> = Vec::new();
    let mut i: usize = 0;
    while i < addresses.len()
        invariant
            i <= addresses@.len(),
            text::texts(r@) == address_literals(addresses@).take(i as int),
        decreases addresses@.len() - i,
    {
        let ghost before = r@;
        let mut part = "toFixedString(unhex('".to_owned();
        part.append(text::hex_upper_string(addresses[i].as_slice()).as_str());
        part.append("'), 32)");
        r.push(part);
        proof {
            assert(text::texts(r@) =~= text::texts(before).push(address_literal(addresses@[i as int])));
            assert(address_literals(addresses@).take(i + 1) =~= address_literals(addresses@).take(
                i as int,
            ).push(address_literal(addresses@[i as int])));
        }
        i += 1;
    }
    proof {
        assert(address_literals(addresses@).take(addresses@.len() as int) =~= address_literals(
            addresses@,
        ));
    }
    r
}

/// The query for the first block of the payout epoch.
pub open spec fn inflation_boundary_query(table: Seq<char>, start_slot: u64, end_slot_exclusive: u64, settings_clause: Seq<char>) -> Seq<char> {
    "SELECT
            slot,
            parent_slot,
            parent_blockhash,
            block_height,
            rewards_num_partitions
         FROM "@ + table + "
         PREWHERE
            intDiv(slot, "@ + text::dec(SLOT_SHARD_DIVISOR as nat) + ") = "@ + text::dec((start_slot / SLOT_SHARD_DIVISOR) as nat) + "
            AND slot >= "@ + text::dec(start_slot as nat) + "
            AND slot < "@ + text::dec(end_slot_exclusive as nat) + "
         ORDER BY slot ASC
         LIMIT 1
         "@ + settings_clause
}

/// Builds the query for the first block of the payout epoch.
pub fn build_inflation_boundary_query(table: &str, start_slot: u64, end_slot_exclusive: u64, settings_clause: &str) -> (q: String)
    ensures
        q@ == inflation_boundary_query(table@, start_slot, end_slot_exclusive, settings_clause@),
{
    let mut q = "SELECT
            slot,
            parent_slot,
            parent_blockhash,
            block_height,
            rewards_num_partitions
         FROM ".to_owned();
    q.append(table);
    q.append("
         PREWHERE
            intDiv(slot, ");
    q.append(text::dec_string(SLOT_SHARD_DIVISOR).as_str());
    q.append(") = ");
    q.append(text::dec_string(start_slot / SLOT_SHARD_DIVISOR).as_str());
    q.append("
            AND slot >= ");
    q.append(text::dec_string(start_slot).as_str());
    q.append("
            AND slot < ");
    q.append(text::dec_string(end_slot_exclusive).as_str());
    q.append("
         ORDER BY slot ASC
         LIMIT 1
         ");
    q.append(settings_clause);
    q
}

/// The boundary is the first block of the epoch in which rewards are paid.
pub proof fn law_boundary_is_the_first_block_of_the_epoch(
    table: Seq<char>,
    start_slot: u64,
    end_slot_exclusive: u64,
    settings_clause: Seq<char>,
)
    ensures
        sql::reads_as(inflation_boundary_query(table, start_slot, end_slot_exclusive, settings_clause), seq![
            "SELECT"@,
            "slot,"@,
            "parent_slot,"@,
            "parent_blockhash,"@,
            "block_height,"@,
            "rewards_num_partitions"@,
            "FROM"@,
            table,
            "PREWHERE"@,
            "intDiv(slot, "@ + text::dec(432000) + ") = "@ + text::dec((start_slot / 432000) as nat),
            "AND"@,
            "slot >= "@ + text::dec(start_slot as nat),
            "AND"@,
            "slot < "@ + text::dec(end_slot_exclusive as nat),
            "ORDER BY"@,
            "slot ASC"@,
            "LIMIT 1"@,
            settings_clause,
        ]),
{
    let words = sql::first("SELECT"@);
    let words = sql::next(words, 12, "slot,"@);
    let words = sql::next(words, 12, "parent_slot,"@);
    let words = sql::next(words, 12, "parent_blockhash,"@);
    let words = sql::next(words, 12, "block_height,"@);
    let words = sql::next(words, 12, "rewards_num_partitions"@);
    let words = sql::next(words, 9, "FROM"@);
    let words = sql::next(words, -1, table);
    let words = sql::next(words, 9, "PREWHERE"@);
    let words = sql::next(words, 12, "intDiv(slot, "@ + text::dec(432000) + ") = "@ + text::dec((start_slot / 432000) as nat));
    let words = sql::next(words, 12, "AND"@);
    let words = sql::next(words, -1, "slot >= "@ + text::dec(start_slot as nat));
    let words = sql::next(words, 12, "AND"@);
    let words = sql::next(words, -1, "slot < "@ + text::dec(end_slot_exclusive as nat));
    let words = sql::next(words, 9, "ORDER BY"@);
    let words = sql::next(words, -1, "slot ASC"@);
    let words = sql::next(words, 9, "LIMIT 1"@);
    let words = sql::next(words, 9, settings_clause);
    assert(sql::reads_as(inflation_boundary_query(table, start_slot, end_slot_exclusive, settings_clause), words.1)) by {
        assert("SELECT
            slot,
            parent_slot,
            parent_blockhash,
            block_height,
            rewards_num_partitions
         FROM "@ == "SELECT"@ + sql::gap(12) + "slot,"@ + sql::gap(12) + "parent_slot,"@ + sql::gap(12) + "parent_blockhash,"@ + sql::gap(12) + "block_height,"@ + sql::gap(12) + "rewards_num_partitions"@ + sql::gap(9) + "FROM"@ + sql::gap(-1)) by {
            reveal_strlit("SELECT
            slot,
            parent_slot,
            parent_blockhash,
            block_height,
            rewards_num_partitions
         FROM ");
            reveal_strlit("SELECT");
            reveal_strlit("slot,");
            reveal_strlit("parent_slot,");
            reveal_strlit("parent_blockhash,");
            reveal_strlit("block_height,");
            reveal_strlit("rewards_num_partitions");
            reveal_strlit("FROM");
        }
        assert("
         PREWHERE
            intDiv(slot, "@ == sql::gap(9) + "PREWHERE"@ + sql::gap(12) + "intDiv(slot, "@) by {
            reveal_strlit("
         PREWHERE
            intDiv(slot, ");
            reveal_strlit("PREWHERE");
            reveal_strlit("intDiv(slot, ");
        }
        assert("
            AND slot >= "@ == sql::gap(12) + "AND"@ + sql::gap(-1) + "slot >= "@) by {
            reveal_strlit("
            AND slot >= ");
            reveal_strlit("AND");
            reveal_strlit("slot >= ");
        }
        assert("
            AND slot < "@ == sql::gap(12) + "AND"@ + sql::gap(-1) + "slot < "@) by {
            reveal_strlit("
            AND slot < ");
            reveal_strlit("AND");
            reveal_strlit("slot < ");
        }
        assert("
         ORDER BY slot ASC
         LIMIT 1
         "@ == sql::gap(9) + "ORDER BY"@ + sql::gap(-1) + "slot ASC"@ + sql::gap(9) + "LIMIT 1"@ + sql::gap(9)) by {
            reveal_strlit("
         ORDER BY slot ASC
         LIMIT 1
         ");
            reveal_strlit("ORDER BY");
            reveal_strlit("slot ASC");
            reveal_strlit("LIMIT 1");
        }
        broadcast use sql::lemma_joined_first;

        sql::lemma_same_text(inflation_boundary_query(table, start_slot, end_slot_exclusive, settings_clause), words);
    }
    assert(words.1 =~= seq![
        "SELECT"@,
        "slot,"@,
        "parent_slot,"@,
        "parent_blockhash,"@,
        "block_height,"@,
        "rewards_num_partitions"@,
        "FROM"@,
        table,
        "PREWHERE"@,
        "intDiv(slot, "@ + text::dec(432000) + ") = "@ + text::dec((start_slot / 432000) as nat),
        "AND"@,
        "slot >= "@ + text::dec(start_slot as nat),
        "AND"@,
        "slot < "@ + text::dec(end_slot_exclusive as nat),
        "ORDER BY"@,
        "slot ASC"@,
        "LIMIT 1"@,
        settings_clause,
    ]);
}

/// The query for the blocks at the given heights after the boundary.
pub open spec fn inflation_partition_slots_query(table: Seq<char>, boundary_slot: u64, end_slot_exclusive: u64, required_block_heights: Seq<u64>, settings_clause: Seq<char>) -> Seq<char> {
    "SELECT slot, block_height
         FROM "@ + table + "
         PREWHERE
            intDiv(slot, "@ + text::dec(SLOT_SHARD_DIVISOR as nat) + ") = "@ + text::dec((boundary_slot / SLOT_SHARD_DIVISOR) as nat) + "
            AND slot > "@ + text::dec(boundary_slot as nat) + "
            AND slot < "@ + text::dec(end_slot_exclusive as nat) + "
         WHERE block_height IN ("@ + text::join(text::dec_texts(required_block_heights), ", "@) + ")
         ORDER BY block_height ASC, slot ASC
         "@ + settings_clause
}

/// Builds the query for the blocks at the given heights after the boundary.
pub fn build_inflation_partition_slots_query(table: &str, boundary_slot: u64, end_slot_exclusive: u64, required_block_heights: &[u64], settings_clause: &str) -> (q: String)
    ensures
        q@ == inflation_partition_slots_query(table@, boundary_slot, end_slot_exclusive, required_block_heights@, settings_clause@),
{
    let mut q = "SELECT slot, block_height
         FROM ".to_owned();
    q.append(table);
    q.append("
         PREWHERE
            intDiv(slot, ");
    q.append(text::dec_string(SLOT_SHARD_DIVISOR).as_str());
    q.append(") = ");
    q.append(text::dec_string(boundary_slot / SLOT_SHARD_DIVISOR).as_str());
    q.append("
            AND slot > ");
    q.append(text::dec_string(boundary_slot).as_str());
    q.append("
            AND slot < ");
    q.append(text::dec_string(end_slot_exclusive).as_str());
    q.append("
         WHERE block_height IN (");
    q.append(text::join_numbers(required_block_heights, ", ").as_str());
    q.append(")
         ORDER BY block_height ASC, slot ASC
         ");
    q.append(settings_clause);
    q
}

/// Partitions are paid in blocks of the same epoch after its boundary, at the heights that are asked
/// for.
pub proof fn law_partition_slots_follow_the_boundary(
    table: Seq<char>,
    boundary_slot: u64,
    end_slot_exclusive: u64,
    required_block_heights: Seq<u64>,
    settings_clause: Seq<char>,
)
    ensures
        sql::reads_as(inflation_partition_slots_query(table, boundary_slot, end_slot_exclusive, required_block_heights, settings_clause), seq![
            "SELECT slot, block_height"@,
            "FROM"@,
            table,
            "PREWHERE"@,
            "intDiv(slot, "@ + text::dec(432000) + ") = "@ + text::dec((boundary_slot / 432000) as nat),
            "AND"@,
            "slot > "@ + text::dec(boundary_slot as nat),
            "AND"@,
            "slot < "@ + text::dec(end_slot_exclusive as nat),
            "WHERE"@,
            "block_height IN ("@ + text::join(text::dec_texts(required_block_heights), ", "@) + ")"@,
            "ORDER BY"@,
            "block_height ASC, slot ASC"@,
            settings_clause,
        ]),
{
    let words = sql::first("SELECT slot, block_height"@);
    let words = sql::next(words, 9, "FROM"@);
    let words = sql::next(words, -1, table);
    let words = sql::next(words, 9, "PREWHERE"@);
    let words = sql::next(words, 12, "intDiv(slot, "@ + text::dec(432000) + ") = "@ + text::dec((boundary_slot / 432000) as nat));
    let words = sql::next(words, 12, "AND"@);
    let words = sql::next(words, -1, "slot > "@ + text::dec(boundary_slot as nat));
    let words = sql::next(words, 12, "AND"@);
    let words = sql::next(words, -1, "slot < "@ + text::dec(end_slot_exclusive as nat));
    let words = sql::next(words, 9, "WHERE"@);
    let words = sql::next(words, -1, "block_height IN ("@ + text::join(text::dec_texts(required_block_heights), ", "@) + ")"@);
    let words = sql::next(words, 9, "ORDER BY"@);
    let words = sql::next(words, -1, "block_height ASC, slot ASC"@);
    let words = sql::next(words, 9, settings_clause);
    assert(sql::reads_as(inflation_partition_slots_query(table, boundary_slot, end_slot_exclusive, required_block_heights, settings_clause), words.1)) by {
        assert("SELECT slot, block_height
         FROM "@ == "SELECT slot, block_height"@ + sql::gap(9) + "FROM"@ + sql::gap(-1)) by {
            reveal_strlit("SELECT slot, block_height
         FROM ");
            reveal_strlit("SELECT slot, block_height");
            reveal_strlit("FROM");
        }
        assert("
         PREWHERE
            intDiv(slot, "@ == sql::gap(9) + "PREWHERE"@ + sql::gap(12) + "intDiv(slot, "@) by {
            reveal_strlit("
         PREWHERE
            intDiv(slot, ");
            reveal_strlit("PREWHERE");
            reveal_strlit("intDiv(slot, ");
        }
        assert("
            AND slot > "@ == sql::gap(12) + "AND"@ + sql::gap(-1) + "slot > "@) by {
            reveal_strlit("
            AND slot > ");
            reveal_strlit("AND");
            reveal_strlit("slot > ");
        }
        assert("
            AND slot < "@ == sql::gap(12) + "AND"@ + sql::gap(-1) + "slot < "@) by {
            reveal_strlit("
            AND slot < ");
            reveal_strlit("AND");
            reveal_strlit("slot < ");
        }
        assert("
         WHERE block_height IN ("@ == sql::gap(9) + "WHERE"@ + sql::gap(-1) + "block_height IN ("@) by {
            reveal_strlit("
         WHERE block_height IN (");
            reveal_strlit("WHERE");
            reveal_strlit("block_height IN (");
        }
        assert(")
         ORDER BY block_height ASC, slot ASC
         "@ == ")"@ + sql::gap(9) + "ORDER BY"@ + sql::gap(-1) + "block_height ASC, slot ASC"@ + sql::gap(9)) by {
            reveal_strlit(")
         ORDER BY block_height ASC, slot ASC
         ");
            reveal_strlit(")");
            reveal_strlit("ORDER BY");
            reveal_strlit("block_height ASC, slot ASC");
        }
        broadcast use sql::lemma_joined_first;

        sql::lemma_same_text(inflation_partition_slots_query(table, boundary_slot, end_slot_exclusive, required_block_heights, settings_clause), words);
    }
    assert(words.1 =~= seq![
        "SELECT slot, block_height"@,
        "FROM"@,
        table,
        "PREWHERE"@,
        "intDiv(slot, "@ + text::dec(432000) + ") = "@ + text::dec((boundary_slot / 432000) as nat),
        "AND"@,
        "slot > "@ + text::dec(boundary_slot as nat),
        "AND"@,
        "slot < "@ + text::dec(end_slot_exclusive as nat),
        "WHERE"@,
        "block_height IN ("@ + text::join(text::dec_texts(required_block_heights), ", "@) + ")"@,
        "ORDER BY"@,
        "block_height ASC, slot ASC"@,
        settings_clause,
    ]);
}

/// The query for the latest block of the payout epoch.
pub open spec fn inflation_progress_query(table: Seq<char>, boundary_slot: u64, end_slot_exclusive: u64, settings_clause: Seq<char>) -> Seq<char> {
    "SELECT slot, block_height
         FROM "@ + table + "
         PREWHERE
            intDiv(slot, "@ + text::dec(SLOT_SHARD_DIVISOR as nat) + ") = "@ + text::dec((boundary_slot / SLOT_SHARD_DIVISOR) as nat) + "
            AND slot >= "@ + text::dec(boundary_slot as nat) + "
            AND slot < "@ + text::dec(end_slot_exclusive as nat) + "
         ORDER BY slot DESC
         LIMIT 1
         "@ + settings_clause
}

/// Builds the query for the latest block of the payout epoch.
pub fn build_inflation_progress_query(table: &str, boundary_slot: u64, end_slot_exclusive: u64, settings_clause: &str) -> (q: String)
    ensures
        q@ == inflation_progress_query(table@, boundary_slot, end_slot_exclusive, settings_clause@),
{
    let mut q = "SELECT slot, block_height
         FROM ".to_owned();
    q.append(table);
    q.append("
         PREWHERE
            intDiv(slot, ");
    q.append(text::dec_string(SLOT_SHARD_DIVISOR).as_str());
    q.append(") = ");
    q.append(text::dec_string(boundary_slot / SLOT_SHARD_DIVISOR).as_str());
    q.append("
            AND slot >= ");
    q.append(text::dec_string(boundary_slot).as_str());
    q.append("
            AND slot < ");
    q.append(text::dec_string(end_slot_exclusive).as_str());
    q.append("
         ORDER BY slot DESC
         LIMIT 1
         ");
    q.append(settings_clause);
    q
}

/// The progress of a payout is the newest block of the epoch, the boundary itself at the earliest.
pub proof fn law_progress_is_the_newest_block_of_the_epoch(
    table: Seq<char>,
    boundary_slot: u64,
    end_slot_exclusive: u64,
    settings_clause: Seq<char>,
)
    ensures
        sql::reads_as(inflation_progress_query(table, boundary_slot, end_slot_exclusive, settings_clause), seq![
            "SELECT slot, block_height"@,
            "FROM"@,
            table,
            "PREWHERE"@,
            "intDiv(slot, "@ + text::dec(432000) + ") = "@ + text::dec((boundary_slot / 432000) as nat),
            "AND"@,
            "slot >= "@ + text::dec(boundary_slot as nat),
            "AND"@,
            "slot < "@ + text::dec(end_slot_exclusive as nat),
            "ORDER BY"@,
            "slot DESC"@,
            "LIMIT 1"@,
            settings_clause,
        ]),
{
    let words = sql::first("SELECT slot, block_height"@);
    let words = sql::next(words, 9, "FROM"@);
    let words = sql::next(words, -1, table);
    let words = sql::next(words, 9, "PREWHERE"@);
    let words = sql::next(words, 12, "intDiv(slot, "@ + text::dec(432000) + ") = "@ + text::dec((boundary_slot / 432000) as nat));
    let words = sql::next(words, 12, "AND"@);
    let words = sql::next(words, -1, "slot >= "@ + text::dec(boundary_slot as nat));
    let words = sql::next(words, 12, "AND"@);
    let words = sql::next(words, -1, "slot < "@ + text::dec(end_slot_exclusive as nat));
    let words = sql::next(words, 9, "ORDER BY"@);
    let words = sql::next(words, -1, "slot DESC"@);
    let words = sql::next(words, 9, "LIMIT 1"@);
    let words = sql::next(words, 9, settings_clause);
    assert(sql::reads_as(inflation_progress_query(table, boundary_slot, end_slot_exclusive, settings_clause), words.1)) by {
        assert("SELECT slot, block_height
         FROM "@ == "SELECT slot, block_height"@ + sql::gap(9) + "FROM"@ + sql::gap(-1)) by {
            reveal_strlit("SELECT slot, block_height
         FROM ");
            reveal_strlit("SELECT slot, block_height");
            reveal_strlit("FROM");
        }
        assert("
         PREWHERE
            intDiv(slot, "@ == sql::gap(9) + "PREWHERE"@ + sql::gap(12) + "intDiv(slot, "@) by {
            reveal_strlit("
         PREWHERE
            intDiv(slot, ");
            reveal_strlit("PREWHERE");
            reveal_strlit("intDiv(slot, ");
        }
        assert("
            AND slot >= "@ == sql::gap(12) + "AND"@ + sql::gap(-1) + "slot >= "@) by {
            reveal_strlit("
            AND slot >= ");
            reveal_strlit("AND");
            reveal_strlit("slot >= ");
        }
        assert("
            AND slot < "@ == sql::gap(12) + "AND"@ + sql::gap(-1) + "slot < "@) by {
            reveal_strlit("
            AND slot < ");
            reveal_strlit("AND");
            reveal_strlit("slot < ");
        }
        assert("
         ORDER BY slot DESC
         LIMIT 1
         "@ == sql::gap(9) + "ORDER BY"@ + sql::gap(-1) + "slot DESC"@ + sql::gap(9) + "LIMIT 1"@ + sql::gap(9)) by {
            reveal_strlit("
         ORDER BY slot DESC
         LIMIT 1
         ");
            reveal_strlit("ORDER BY");
            reveal_strlit("slot DESC");
            reveal_strlit("LIMIT 1");
        }
        broadcast use sql::lemma_joined_first;

        sql::lemma_same_text(inflation_progress_query(table, boundary_slot, end_slot_exclusive, settings_clause), words);
    }
    assert(words.1 =~= seq![
        "SELECT slot, block_height"@,
        "FROM"@,
        table,
        "PREWHERE"@,
        "intDiv(slot, "@ + text::dec(432000) + ") = "@ + text::dec((boundary_slot / 432000) as nat),
        "AND"@,
        "slot >= "@ + text::dec(boundary_slot as nat),
        "AND"@,
        "slot < "@ + text::dec(end_slot_exclusive as nat),
        "ORDER BY"@,
        "slot DESC"@,
        "LIMIT 1"@,
        settings_clause,
    ]);
}

/// The query for the rewards of some addresses in the blocks at exactly the given slots.
pub open spec fn inflation_rewards_query(table: Seq<char>, addresses: Seq<[u8; 32]>, slots: Seq<u64>, selection: InflationRewardSelection, settings_clause: Seq<char>) -> Seq<char> {
    "WITH ["@ + text::join(address_literals(addresses), ", "@) + "] AS target_pubkeys
         SELECT
            pubkey,
            tupleElement(latest, 1) AS effective_slot,
            tupleElement(latest, 2) AS lamports,
            tupleElement(latest, 3) AS post_balance,
            tupleElement(latest, 4) AS commission,
            tupleElement(latest, 5) AS commission_bps
         FROM (
            SELECT
                reward.1 AS pubkey,
                argMax(tuple(slot, reward.2, reward.3, reward.5, reward.6), slot) AS latest
            FROM (
                SELECT
                    slot,
                    rewards_pubkey,
                    rewards_lamports,
                    rewards_post_balance,
                    rewards_type,
                    rewards_commission,
                    if(
                        empty(rewards_commission_bps),
                        arrayMap(_ -> CAST(NULL, 'Nullable(UInt16)'), rewards_pubkey),
                        rewards_commission_bps
                    ) AS rewards_commission_bps
                FROM "@ + table + "
                PREWHERE slot IN ("@ + text::join(text::dec_texts(slots), ", "@) + ")
                WHERE rewards_present = 1 AND hasAny(rewards_pubkey, target_pubkeys)
            ) AS selected_blocks
            ARRAY JOIN arrayZip(
                rewards_pubkey,
                rewards_lamports,
                rewards_post_balance,
                rewards_type,
                rewards_commission,
                rewards_commission_bps
            ) AS reward
            WHERE has(target_pubkeys, reward.1) AND "@ + selection.predicate() + "
            GROUP BY pubkey
         )
         "@ + settings_clause
}

/// Builds the query for the rewards of some addresses in the blocks at exactly the given slots.
pub fn build_inflation_rewards_query(table: &str, addresses: &[[u8; 32]], slots: &[u64], selection: InflationRewardSelection, settings_clause: &str) -> (q: String)
    ensures
        q@ == inflation_rewards_query(table@, addresses@, slots@, selection, settings_clause@),
{
    let mut q = "WITH [".to_owned();
    q.append(text::join_texts(&address_literal_texts(addresses), ", ").as_str());
    q.append("] AS target_pubkeys
         SELECT
            pubkey,
            tupleElement(latest, 1) AS effective_slot,
            tupleElement(latest, 2) AS lamports,
            tupleElement(latest, 3) AS post_balance,
            tupleElement(latest, 4) AS commission,
            tupleElement(latest, 5) AS commission_bps
         FROM (
            SELECT
                reward.1 AS pubkey,
                argMax(tuple(slot, reward.2, reward.3, reward.5, reward.6), slot) AS latest
            FROM (
                SELECT
                    slot,
                    rewards_pubkey,
                    rewards_lamports,
                    rewards_post_balance,
                    rewards_type,
                    rewards_commission,
                    if(
                        empty(rewards_commission_bps),
                        arrayMap(_ -> CAST(NULL, 'Nullable(UInt16)'), rewards_pubkey),
                        rewards_commission_bps
                    ) AS rewards_commission_bps
                FROM ");
    q.append(table);
    q.append("
                PREWHERE slot IN (");
    q.append(text::join_numbers(slots, ", ").as_str());
    q.append(")
                WHERE rewards_present = 1 AND hasAny(rewards_pubkey, target_pubkeys)
            ) AS selected_blocks
            ARRAY JOIN arrayZip(
                rewards_pubkey,
                rewards_lamports,
                rewards_post_balance,
                rewards_type,
                rewards_commission,
                rewards_commission_bps
            ) AS reward
            WHERE has(target_pubkeys, reward.1) AND ");
    q.append(selection.sql_predicate());
    q.append("
            GROUP BY pubkey
         )
         ");
    q.append(settings_clause);
    q
}

/// The pieces of the query, word by word.
#[verifier::spinoff_prover]
proof fn lemma_pieces_of_rewards_are_those_of_the_addresses()
    ensures
        "] AS target_pubkeys
         SELECT
            pubkey,
            tupleElement(latest, 1) AS effective_slot,
            tupleElement(latest, 2) AS lamports,
            tupleElement(latest, 3) AS post_balance,
            tupleElement(latest, 4) AS commission,
            tupleElement(latest, 5) AS commission_bps
         FROM (
            SELECT
                reward.1 AS pubkey,
                argMax(tuple(slot, reward.2, reward.3, reward.5, reward.6), slot) AS latest
            FROM (
                SELECT
                    slot,
                    rewards_pubkey,
                    rewards_lamports,
                    rewards_post_balance,
                    rewards_type,
                    rewards_commission,
                    if(
                        empty(rewards_commission_bps),
                        arrayMap(_ -> CAST(NULL, 'Nullable(UInt16)'), rewards_pubkey),
                        rewards_commission_bps
                    ) AS rewards_commission_bps
                FROM "@ == "] AS target_pubkeys"@ + sql::gap(9) + "SELECT"@ + sql::gap(12) + "pubkey,"@ + sql::gap(12) + "tupleElement(latest, 1) AS effective_slot,"@ + sql::gap(12) + "tupleElement(latest, 2) AS lamports,"@ + sql::gap(12) + "tupleElement(latest, 3) AS post_balance,"@ + sql::gap(12) + "tupleElement(latest, 4) AS commission,"@ + sql::gap(12) + "tupleElement(latest, 5) AS commission_bps"@ + sql::gap(9) + "FROM ("@ + sql::gap(12) + "SELECT"@ + sql::gap(16) + "reward.1 AS pubkey,"@ + sql::gap(16) + "argMax(tuple(slot, reward.2, reward.3, reward.5, reward.6), slot) AS latest"@ + sql::gap(12) + "FROM ("@ + sql::gap(16) + "SELECT"@ + sql::gap(20) + "slot,"@ + sql::gap(20) + "rewards_pubkey,"@ + sql::gap(20) + "rewards_lamports,"@ + sql::gap(20) + "rewards_post_balance,"@ + sql::gap(20) + "rewards_type,"@ + sql::gap(20) + "rewards_commission,"@ + sql::gap(20) + "if("@ + sql::gap(24) + "empty(rewards_commission_bps),"@ + sql::gap(24) + "arrayMap(_ -> CAST(NULL, 'Nullable(UInt16)'), rewards_pubkey),"@ + sql::gap(24) + "rewards_commission_bps"@ + sql::gap(20) + ") AS rewards_commission_bps"@ + sql::gap(16) + "FROM"@ + sql::gap(-1),
        "
                PREWHERE slot IN ("@ == sql::gap(16) + "PREWHERE"@ + sql::gap(-1) + "slot IN ("@,
        ")
                WHERE rewards_present = 1 AND hasAny(rewards_pubkey, target_pubkeys)
            ) AS selected_blocks
            ARRAY JOIN arrayZip(
                rewards_pubkey,
                rewards_lamports,
                rewards_post_balance,
                rewards_type,
                rewards_commission,
                rewards_commission_bps
            ) AS reward
            WHERE has(target_pubkeys, reward.1) AND "@ == ")"@ + sql::gap(16) + "WHERE"@ + sql::gap(-1) + "rewards_present = 1 AND hasAny(rewards_pubkey, target_pubkeys)"@ + sql::gap(12) + ") AS selected_blocks"@ + sql::gap(12) + "ARRAY JOIN arrayZip("@ + sql::gap(16) + "rewards_pubkey,"@ + sql::gap(16) + "rewards_lamports,"@ + sql::gap(16) + "rewards_post_balance,"@ + sql::gap(16) + "rewards_type,"@ + sql::gap(16) + "rewards_commission,"@ + sql::gap(16) + "rewards_commission_bps"@ + sql::gap(12) + ") AS reward"@ + sql::gap(12) + "WHERE"@ + sql::gap(-1) + "has(target_pubkeys, reward.1)"@ + sql::gap(-1) + "AND"@ + sql::gap(-1),
        "
            GROUP BY pubkey
         )
         "@ == sql::gap(12) + "GROUP BY pubkey"@ + sql::gap(9) + ")"@ + sql::gap(9),
{
    assert("] AS target_pubkeys
         SELECT
            pubkey,
            tupleElement(latest, 1) AS effective_slot,
            tupleElement(latest, 2) AS lamports,
            tupleElement(latest, 3) AS post_balance,
            tupleElement(latest, 4) AS commission,
            tupleElement(latest, 5) AS commission_bps
         FROM (
            SELECT
                reward.1 AS pubkey,
                argMax(tuple(slot, reward.2, reward.3, reward.5, reward.6), slot) AS latest
            FROM (
                SELECT
                    slot,
                    rewards_pubkey,
                    rewards_lamports,
                    rewards_post_balance,
                    rewards_type,
                    rewards_commission,
                    if(
                        empty(rewards_commission_bps),
                        arrayMap(_ -> CAST(NULL, 'Nullable(UInt16)'), rewards_pubkey),
                        rewards_commission_bps
                    ) AS rewards_commission_bps
                FROM "@ == "] AS target_pubkeys"@ + sql::gap(9) + "SELECT"@ + sql::gap(12) + "pubkey,"@ + sql::gap(12) + "tupleElement(latest, 1) AS effective_slot,"@ + sql::gap(12) + "tupleElement(latest, 2) AS lamports,"@ + sql::gap(12) + "tupleElement(latest, 3) AS post_balance,"@ + sql::gap(12) + "tupleElement(latest, 4) AS commission,"@ + sql::gap(12) + "tupleElement(latest, 5) AS commission_bps"@ + sql::gap(9) + "FROM ("@ + sql::gap(12) + "SELECT"@ + sql::gap(16) + "reward.1 AS pubkey,"@ + sql::gap(16) + "argMax(tuple(slot, reward.2, reward.3, reward.5, reward.6), slot) AS latest"@ + sql::gap(12) + "FROM ("@ + sql::gap(16) + "SELECT"@ + sql::gap(20) + "slot,"@ + sql::gap(20) + "rewards_pubkey,"@ + sql::gap(20) + "rewards_lamports,"@ + sql::gap(20) + "rewards_post_balance,"@ + sql::gap(20) + "rewards_type,"@ + sql::gap(20) + "rewards_commission,"@ + sql::gap(20) + "if("@ + sql::gap(24) + "empty(rewards_commission_bps),"@ + sql::gap(24) + "arrayMap(_ -> CAST(NULL, 'Nullable(UInt16)'), rewards_pubkey),"@ + sql::gap(24) + "rewards_commission_bps"@ + sql::gap(20) + ") AS rewards_commission_bps"@ + sql::gap(16) + "FROM"@ + sql::gap(-1)) by {
        reveal_strlit("] AS target_pubkeys
         SELECT
            pubkey,
            tupleElement(latest, 1) AS effective_slot,
            tupleElement(latest, 2) AS lamports,
            tupleElement(latest, 3) AS post_balance,
            tupleElement(latest, 4) AS commission,
            tupleElement(latest, 5) AS commission_bps
         FROM (
            SELECT
                reward.1 AS pubkey,
                argMax(tuple(slot, reward.2, reward.3, reward.5, reward.6), slot) AS latest
            FROM (
                SELECT
                    slot,
                    rewards_pubkey,
                    rewards_lamports,
                    rewards_post_balance,
                    rewards_type,
                    rewards_commission,
                    if(
                        empty(rewards_commission_bps),
                        arrayMap(_ -> CAST(NULL, 'Nullable(UInt16)'), rewards_pubkey),
                        rewards_commission_bps
                    ) AS rewards_commission_bps
                FROM ");
        reveal_strlit("] AS target_pubkeys");
        reveal_strlit("SELECT");
        reveal_strlit("pubkey,");
        reveal_strlit("tupleElement(latest, 1) AS effective_slot,");
        reveal_strlit("tupleElement(latest, 2) AS lamports,");
        reveal_strlit("tupleElement(latest, 3) AS post_balance,");
        reveal_strlit("tupleElement(latest, 4) AS commission,");
        reveal_strlit("tupleElement(latest, 5) AS commission_bps");
        reveal_strlit("FROM (");
        reveal_strlit("reward.1 AS pubkey,");
        reveal_strlit("argMax(tuple(slot, reward.2, reward.3, reward.5, reward.6), slot) AS latest");
        reveal_strlit("slot,");
        reveal_strlit("rewards_pubkey,");
        reveal_strlit("rewards_lamports,");
        reveal_strlit("rewards_post_balance,");
        reveal_strlit("rewards_type,");
        reveal_strlit("rewards_commission,");
        reveal_strlit("if(");
        reveal_strlit("empty(rewards_commission_bps),");
        reveal_strlit("arrayMap(_ -> CAST(NULL, 'Nullable(UInt16)'), rewards_pubkey),");
        reveal_strlit("rewards_commission_bps");
        reveal_strlit(") AS rewards_commission_bps");
        reveal_strlit("FROM");
    }
    assert("
                PREWHERE slot IN ("@ == sql::gap(16) + "PREWHERE"@ + sql::gap(-1) + "slot IN ("@) by {
        reveal_strlit("
                PREWHERE slot IN (");
        reveal_strlit("PREWHERE");
        reveal_strlit("slot IN (");
    }
    assert(")
                WHERE rewards_present = 1 AND hasAny(rewards_pubkey, target_pubkeys)
            ) AS selected_blocks
            ARRAY JOIN arrayZip(
                rewards_pubkey,
                rewards_lamports,
                rewards_post_balance,
                rewards_type,
                rewards_commission,
                rewards_commission_bps
            ) AS reward
            WHERE has(target_pubkeys, reward.1) AND "@ == ")"@ + sql::gap(16) + "WHERE"@ + sql::gap(-1) + "rewards_present = 1 AND hasAny(rewards_pubkey, target_pubkeys)"@ + sql::gap(12) + ") AS selected_blocks"@ + sql::gap(12) + "ARRAY JOIN arrayZip("@ + sql::gap(16) + "rewards_pubkey,"@ + sql::gap(16) + "rewards_lamports,"@ + sql::gap(16) + "rewards_post_balance,"@ + sql::gap(16) + "rewards_type,"@ + sql::gap(16) + "rewards_commission,"@ + sql::gap(16) + "rewards_commission_bps"@ + sql::gap(12) + ") AS reward"@ + sql::gap(12) + "WHERE"@ + sql::gap(-1) + "has(target_pubkeys, reward.1)"@ + sql::gap(-1) + "AND"@ + sql::gap(-1)) by {
        reveal_strlit(")
                WHERE rewards_present = 1 AND hasAny(rewards_pubkey, target_pubkeys)
            ) AS selected_blocks
            ARRAY JOIN arrayZip(
                rewards_pubkey,
                rewards_lamports,
                rewards_post_balance,
                rewards_type,
                rewards_commission,
                rewards_commission_bps
            ) AS reward
            WHERE has(target_pubkeys, reward.1) AND ");
        reveal_strlit(")");
        reveal_strlit("WHERE");
        reveal_strlit("rewards_present = 1 AND hasAny(rewards_pubkey, target_pubkeys)");
        reveal_strlit(") AS selected_blocks");
        reveal_strlit("ARRAY JOIN arrayZip(");
        reveal_strlit("rewards_pubkey,");
        reveal_strlit("rewards_lamports,");
        reveal_strlit("rewards_post_balance,");
        reveal_strlit("rewards_type,");
        reveal_strlit("rewards_commission,");
        reveal_strlit("rewards_commission_bps");
        reveal_strlit(") AS reward");
        reveal_strlit("has(target_pubkeys, reward.1)");
        reveal_strlit("AND");
    }
    assert("
            GROUP BY pubkey
         )
         "@ == sql::gap(12) + "GROUP BY pubkey"@ + sql::gap(9) + ")"@ + sql::gap(9)) by {
        reveal_strlit("
            GROUP BY pubkey
         )
         ");
        reveal_strlit("GROUP BY pubkey");
        reveal_strlit(")");
    }
}

/// The words of the query, one after the other.
#[verifier::spinoff_prover]
#[verifier::rlimit(100)]
proof fn lemma_words_of_rewards_are_those_of_the_addresses(
    table: Seq<char>,
    addresses: Seq<[u8; 32]>,
    slots: Seq<u64>,
    selection: InflationRewardSelection,
    settings_clause: Seq<char>,
) -> (r: Seq<Seq<char>>)
    ensures
        sql::reads_as(inflation_rewards_query(table, addresses, slots, selection, settings_clause), r),
        r == seq!["WITH ["@ + text::join(address_literals(addresses), ", "@) + "] AS target_pubkeys"@].push(
            "SELECT"@,
        ).push(
            "pubkey,"@,
        ).push(
            "tupleElement(latest, 1) AS effective_slot,"@,
        ).push(
            "tupleElement(latest, 2) AS lamports,"@,
        ).push(
            "tupleElement(latest, 3) AS post_balance,"@,
        ).push(
            "tupleElement(latest, 4) AS commission,"@,
        ).push(
            "tupleElement(latest, 5) AS commission_bps"@,
        ).push(
            "FROM ("@,
        ).push(
            "SELECT"@,
        ).push(
            "reward.1 AS pubkey,"@,
        ).push(
            "argMax(tuple(slot, reward.2, reward.3, reward.5, reward.6), slot) AS latest"@,
        ).push(
            "FROM ("@,
        ).push(
            "SELECT"@,
        ).push(
            "slot,"@,
        ).push(
            "rewards_pubkey,"@,
        ).push(
            "rewards_lamports,"@,
        ).push(
            "rewards_post_balance,"@,
        ).push(
            "rewards_type,"@,
        ).push(
            "rewards_commission,"@,
        ).push(
            "if("@,
        ).push(
            "empty(rewards_commission_bps),"@,
        ).push(
            "arrayMap(_ -> CAST(NULL, 'Nullable(UInt16)'), rewards_pubkey),"@,
        ).push(
            "rewards_commission_bps"@,
        ).push(
            ") AS rewards_commission_bps"@,
        ).push(
            "FROM"@,
        ).push(
            table,
        ).push(
            "PREWHERE"@,
        ).push(
            "slot IN ("@ + text::join(text::dec_texts(slots), ", "@) + ")"@,
        ).push(
            "WHERE"@,
        ).push(
            "rewards_present = 1 AND hasAny(rewards_pubkey, target_pubkeys)"@,
        ).push(
            ") AS selected_blocks"@,
        ).push(
            "ARRAY JOIN arrayZip("@,
        ).push(
            "rewards_pubkey,"@,
        ).push(
            "rewards_lamports,"@,
        ).push(
            "rewards_post_balance,"@,
        ).push(
            "rewards_type,"@,
        ).push(
            "rewards_commission,"@,
        ).push(
            "rewards_commission_bps"@,
        ).push(
            ") AS reward"@,
        ).push(
            "WHERE"@,
        ).push(
            "has(target_pubkeys, reward.1)"@,
        ).push(
            "AND"@,
        ).push(
            selection.predicate(),
        ).push(
            "GROUP BY pubkey"@,
        ).push(
            ")"@,
        ).push(
            settings_clause,
        ),
{
    let words = sql::first("WITH ["@ + text::join(address_literals(addresses), ", "@) + "] AS target_pubkeys"@);
    let words = sql::next(words, 9, "SELECT"@);
    let words = sql::next(words, 12, "pubkey,"@);
    let words = sql::next(words, 12, "tupleElement(latest, 1) AS effective_slot,"@);
    let words = sql::next(words, 12, "tupleElement(latest, 2) AS lamports,"@);
    let words = sql::next(words, 12, "tupleElement(latest, 3) AS post_balance,"@);
    let words = sql::next(words, 12, "tupleElement(latest, 4) AS commission,"@);
    let words = sql::next(words, 12, "tupleElement(latest, 5) AS commission_bps"@);
    let words = sql::next(words, 9, "FROM ("@);
    let words = sql::next(words, 12, "SELECT"@);
    let words = sql::next(words, 16, "reward.1 AS pubkey,"@);
    let words = sql::next(words, 16, "argMax(tuple(slot, reward.2, reward.3, reward.5, reward.6), slot) AS latest"@);
    let words = sql::next(words, 12, "FROM ("@);
    let words = sql::next(words, 16, "SELECT"@);
    let words = sql::next(words, 20, "slot,"@);
    let words = sql::next(words, 20, "rewards_pubkey,"@);
    let words = sql::next(words, 20, "rewards_lamports,"@);
    let words = sql::next(words, 20, "rewards_post_balance,"@);
    let words = sql::next(words, 20, "rewards_type,"@);
    let words = sql::next(words, 20, "rewards_commission,"@);
    let words = sql::next(words, 20, "if("@);
    let words = sql::next(words, 24, "empty(rewards_commission_bps),"@);
    let words = sql::next(words, 24, "arrayMap(_ -> CAST(NULL, 'Nullable(UInt16)'), rewards_pubkey),"@);
    let words = sql::next(words, 24, "rewards_commission_bps"@);
    let words = sql::next(words, 20, ") AS rewards_commission_bps"@);
    let words = sql::next(words, 16, "FROM"@);
    let words = sql::next(words, -1, table);
    let words = sql::next(words, 16, "PREWHERE"@);
    let words = sql::next(words, -1, "slot IN ("@ + text::join(text::dec_texts(slots), ", "@) + ")"@);
    let words = sql::next(words, 16, "WHERE"@);
    let words = sql::next(words, -1, "rewards_present = 1 AND hasAny(rewards_pubkey, target_pubkeys)"@);
    let words = sql::next(words, 12, ") AS selected_blocks"@);
    let words = sql::next(words, 12, "ARRAY JOIN arrayZip("@);
    let words = sql::next(words, 16, "rewards_pubkey,"@);
    let words = sql::next(words, 16, "rewards_lamports,"@);
    let words = sql::next(words, 16, "rewards_post_balance,"@);
    let words = sql::next(words, 16, "rewards_type,"@);
    let words = sql::next(words, 16, "rewards_commission,"@);
    let words = sql::next(words, 16, "rewards_commission_bps"@);
    let words = sql::next(words, 12, ") AS reward"@);
    let words = sql::next(words, 12, "WHERE"@);
    let words = sql::next(words, -1, "has(target_pubkeys, reward.1)"@);
    let words = sql::next(words, -1, "AND"@);
    let words = sql::next(words, -1, selection.predicate());
    let words = sql::next(words, 12, "GROUP BY pubkey"@);
    let words = sql::next(words, 9, ")"@);
    let words = sql::next(words, 9, settings_clause);
    assert(sql::reads_as(inflation_rewards_query(table, addresses, slots, selection, settings_clause), words.1)) by {
        lemma_pieces_of_rewards_are_those_of_the_addresses();
        broadcast use sql::lemma_joined_first;

        sql::lemma_same_text(inflation_rewards_query(table, addresses, slots, selection, settings_clause), words);
    }
    words.1
}

/// The rewards are those that the blocks at the slots paid to the addresses, of the kinds that are
/// asked for; of each address the newest.
#[verifier::spinoff_prover]
#[verifier::rlimit(50)]
pub proof fn law_rewards_are_those_of_the_addresses(
    table: Seq<char>,
    addresses: Seq<[u8; 32]>,
    slots: Seq<u64>,
    selection: InflationRewardSelection,
    settings_clause: Seq<char>,
)
    ensures
        sql::reads_as(inflation_rewards_query(table, addresses, slots, selection, settings_clause), seq![
            "WITH ["@ + text::join(address_literals(addresses), ", "@) + "] AS target_pubkeys"@,
            "SELECT"@,
            "pubkey,"@,
            "tupleElement(latest, 1) AS effective_slot,"@,
            "tupleElement(latest, 2) AS lamports,"@,
            "tupleElement(latest, 3) AS post_balance,"@,
            "tupleElement(latest, 4) AS commission,"@,
            "tupleElement(latest, 5) AS commission_bps"@,
            "FROM ("@,
            "SELECT"@,
            "reward.1 AS pubkey,"@,
            "argMax(tuple(slot, reward.2, reward.3, reward.5, reward.6), slot) AS latest"@,
            "FROM ("@,
            "SELECT"@,
            "slot,"@,
            "rewards_pubkey,"@,
            "rewards_lamports,"@,
            "rewards_post_balance,"@,
            "rewards_type,"@,
            "rewards_commission,"@,
            "if("@,
            "empty(rewards_commission_bps),"@,
            "arrayMap(_ -> CAST(NULL, 'Nullable(UInt16)'), rewards_pubkey),"@,
            "rewards_commission_bps"@,
            ") AS rewards_commission_bps"@,
            "FROM"@,
            table,
            "PREWHERE"@,
            "slot IN ("@ + text::join(text::dec_texts(slots), ", "@) + ")"@,
            "WHERE"@,
            "rewards_present = 1 AND hasAny(rewards_pubkey, target_pubkeys)"@,
            ") AS selected_blocks"@,
            "ARRAY JOIN arrayZip("@,
            "rewards_pubkey,"@,
            "rewards_lamports,"@,
            "rewards_post_balance,"@,
            "rewards_type,"@,
            "rewards_commission,"@,
            "rewards_commission_bps"@,
            ") AS reward"@,
            "WHERE"@,
            "has(target_pubkeys, reward.1)"@,
            "AND"@,
            selection.predicate(),
            "GROUP BY pubkey"@,
            ")"@,
            settings_clause,
        ]),
{
    let words = lemma_words_of_rewards_are_those_of_the_addresses(table, addresses, slots, selection, settings_clause);
    assert(words =~= seq![
        "WITH ["@ + text::join(address_literals(addresses), ", "@) + "] AS target_pubkeys"@,
        "SELECT"@,
        "pubkey,"@,
        "tupleElement(latest, 1) AS effective_slot,"@,
        "tupleElement(latest, 2) AS lamports,"@,
        "tupleElement(latest, 3) AS post_balance,"@,
        "tupleElement(latest, 4) AS commission,"@,
        "tupleElement(latest, 5) AS commission_bps"@,
        "FROM ("@,
        "SELECT"@,
        "reward.1 AS pubkey,"@,
        "argMax(tuple(slot, reward.2, reward.3, reward.5, reward.6), slot) AS latest"@,
        "FROM ("@,
        "SELECT"@,
        "slot,"@,
        "rewards_pubkey,"@,
        "rewards_lamports,"@,
        "rewards_post_balance,"@,
        "rewards_type,"@,
        "rewards_commission,"@,
        "if("@,
        "empty(rewards_commission_bps),"@,
        "arrayMap(_ -> CAST(NULL, 'Nullable(UInt16)'), rewards_pubkey),"@,
        "rewards_commission_bps"@,
        ") AS rewards_commission_bps"@,
        "FROM"@,
        table,
        "PREWHERE"@,
        "slot IN ("@ + text::join(text::dec_texts(slots), ", "@) + ")"@,
        "WHERE"@,
        "rewards_present = 1 AND hasAny(rewards_pubkey, target_pubkeys)"@,
        ") AS selected_blocks"@,
        "ARRAY JOIN arrayZip("@,
        "rewards_pubkey,"@,
        "rewards_lamports,"@,
        "rewards_post_balance,"@,
        "rewards_type,"@,
        "rewards_commission,"@,
        "rewards_commission_bps"@,
        ") AS reward"@,
        "WHERE"@,
        "has(target_pubkeys, reward.1)"@,
        "AND"@,
        selection.predicate(),
        "GROUP BY pubkey"@,
        ")"@,
        settings_clause,
    ]);
}

/// Whether a condition on the reward kind lets a kind through.
pub open spec fn admits(predicate: Seq<char>, kind: Seq<char>) -> bool {
    ||| predicate == "lowerUTF8(ifNull(reward.4, '')) = '"@ + kind + "'"@
    ||| {
        &&& predicate == "lowerUTF8(ifNull(reward.4, '')) IN ('staking', 'voting')"@
        &&& kind == "staking"@ || kind == "voting"@
    }
}

/// A condition on one kind lets that kind through and no other.
proof fn lemma_one_kind(predicate: Seq<char>, admitted: Seq<char>, kind: Seq<char>)
    requires
        predicate == "lowerUTF8(ifNull(reward.4, '')) = '"@ + admitted + "'"@,
    ensures
        admits(predicate, kind) <==> kind == admitted,
{
    let front = "lowerUTF8(ifNull(reward.4, '')) = '"@;
    reveal_strlit("lowerUTF8(ifNull(reward.4, '')) = '");
    reveal_strlit("lowerUTF8(ifNull(reward.4, '')) IN ('staking', 'voting')");
    reveal_strlit("'");
    assert(front[32] == '=' && front.len() == 35);
    assert("lowerUTF8(ifNull(reward.4, '')) IN ('staking', 'voting')"@[32] == 'I');
    assert(predicate[32] == front[32]);
    if predicate == front + kind + "'"@ {
        assert((front + kind + "'"@).len() == 36 + kind.len());
        assert((front + admitted + "'"@).len() == 36 + admitted.len());
        assert forall|i: int| 0 <= i < kind.len() implies kind[i] == admitted[i] by {
            assert(predicate[i + 35] == kind[i]);
            assert(predicate[i + 35] == admitted[i]);
        }
        assert(kind =~= admitted);
    }
}

/// Asking for vote rewards lets vote rewards through and nothing else, asking for stake rewards lets
/// stake rewards through and nothing else, and asking for both lets exactly these two through. So the
/// vote rewards of the boundary block and the stake rewards of the partitions are together what is
/// asked for at once where there are no partitions, and no reward is asked for twice.
pub proof fn law_vote_and_stake_rewards_are_told_apart(kind: Seq<char>)
    ensures
        admits(InflationRewardSelection::VoteOnly.predicate(), "voting"@),
        !admits(InflationRewardSelection::VoteOnly.predicate(), "staking"@),
        admits(InflationRewardSelection::StakeOnly.predicate(), "staking"@),
        !admits(InflationRewardSelection::StakeOnly.predicate(), "voting"@),
        admits(InflationRewardSelection::VoteOnly.predicate(), kind) <==> kind == "voting"@,
        admits(InflationRewardSelection::StakeOnly.predicate(), kind) <==> kind == "staking"@,
        admits(InflationRewardSelection::VoteAndStake.predicate(), kind) <==> kind == "voting"@
            || kind == "staking"@,
        admits(InflationRewardSelection::VoteAndStake.predicate(), kind) <==> admits(
            InflationRewardSelection::VoteOnly.predicate(),
            kind,
        ) || admits(InflationRewardSelection::StakeOnly.predicate(), kind),
        !(admits(InflationRewardSelection::VoteOnly.predicate(), kind) && admits(
            InflationRewardSelection::StakeOnly.predicate(),
            kind,
        )),
{
    let front = "lowerUTF8(ifNull(reward.4, '')) = '"@;
    let vote = InflationRewardSelection::VoteOnly.predicate();
    let stake = InflationRewardSelection::StakeOnly.predicate();
    let both = InflationRewardSelection::VoteAndStake.predicate();
    assert("voting"@ != "staking"@) by {
        reveal_strlit("voting");
        reveal_strlit("staking");
        assert("voting"@.len() == 6 && "staking"@.len() == 7);
    }
    assert(vote == front + "voting"@ + "'"@) by {
        reveal_strlit("lowerUTF8(ifNull(reward.4, '')) = 'voting'");
        reveal_strlit("lowerUTF8(ifNull(reward.4, '')) = '");
        reveal_strlit("voting");
        reveal_strlit("'");
    }
    assert(stake == front + "staking"@ + "'"@) by {
        reveal_strlit("lowerUTF8(ifNull(reward.4, '')) = 'staking'");
        reveal_strlit("lowerUTF8(ifNull(reward.4, '')) = '");
        reveal_strlit("staking");
        reveal_strlit("'");
    }
    assert(both != front + kind + "'"@) by {
        reveal_strlit("lowerUTF8(ifNull(reward.4, '')) = '");
        reveal_strlit("lowerUTF8(ifNull(reward.4, '')) IN ('staking', 'voting')");
        assert((front + kind + "'"@)[32] == '=');
        assert("lowerUTF8(ifNull(reward.4, '')) IN ('staking', 'voting')"@[32] == 'I');
    }
    lemma_one_kind(vote, "voting"@, kind);
    lemma_one_kind(vote, "voting"@, "staking"@);
    lemma_one_kind(vote, "voting"@, "voting"@);
    lemma_one_kind(stake, "staking"@, kind);
    lemma_one_kind(stake, "staking"@, "voting"@);
    lemma_one_kind(stake, "staking"@, "staking"@);
}

/// Every address is asked for, by its bytes.
pub proof fn law_every_address_is_asked_for(addresses: Seq<[u8; 32]>, i: int)
    requires
        0 <= i < addresses.len(),
    ensures
        address_literals(addresses).len() == addresses.len(),
        address_literals(addresses)[i] == "toFixedString(unhex('"@ + text::hex_upper(addresses[i]@)
            + "'), 32)"@,
{
}

} // verus!
