//! Blocks by their slots: the queries, and where they are asked.
use vstd::prelude::*;

use crate::clickhouse::client::ClickHouseClient;
use crate::clickhouse::columns;
use crate::clickhouse::columns::{format_select_columns, with_columns};
use crate::clickhouse::sharding;
use crate::clickhouse::sharding::ShardTopology;
use crate::clickhouse::slots;
use crate::clickhouse::slots::{
    shard_indices_for_slot_range, shard_slot_ranges_for_slot_range, ShardSlotRange,
    SLOT_SHARD_DIVISOR,
};
use crate::clickhouse::sql;
use crate::clickhouse::startup;
use crate::processing::ProcessingError;
use crate::text;

verus! {

/// How far back a blockhash is looked for, in slots. Skipped slots make it more than the number of
/// blocks for which a blockhash is valid.
pub const BLOCKHASH_VALID_SLOT_WINDOW: u64 = 512;

/// How much is read of the transactions of a block.
#[derive(Clone, Copy, Debug, PartialEq, Eq, Structural)]
pub enum BlockTransactionProjection {
    Signatures,
    Accounts,
    Full,
}

/// The keyword of a condition that is tested first, where the table can do that.
pub open spec fn filter_keyword(supports_prewhere: bool) -> Seq<char> {
    if supports_prewhere {
        "PREWHERE"@
    } else {
        "WHERE"@
    }
}

fn filter_word(supports_prewhere: bool) -> (r: &'static str)
    ensures
        r@ == filter_keyword(supports_prewhere),
{
    if supports_prewhere {
        "PREWHERE"
    } else {
        "WHERE"
    }
}

/// The columns that are read of a block.
pub open spec fn metadata_columns(include_rewards: bool) -> Seq<Seq<char>> {
    if include_rewards {
        columns::block_metadata_base() + columns::block_metadata_reward()
    } else {
        columns::block_metadata_base()
    }
}

fn metadata_column_list(include_rewards: bool) -> (r: String)
    ensures
        r@ == columns::select_list(metadata_columns(include_rewards)),
{
    let base = columns::block_metadata_base_columns();
    if include_rewards {
        let all = with_columns(base, columns::block_metadata_reward_columns());
        return format_select_columns(all.as_slice());
    }
    format_select_columns(base.as_slice())
}

/// The query for a block.
pub open spec fn block_metadata_query(
    table: Seq<char>,
    slot: u64,
    include_rewards: bool,
    settings_clause: Seq<char>,
    supports_prewhere: bool,
) -> Seq<char> {
    ("SELECT
                "@ + columns::select_list(metadata_columns(include_rewards)) + "
             FROM "@ + table + "
             "@ + filter_keyword(supports_prewhere) + " slot = "@ + text::dec(slot as nat) + "
             LIMIT 1
             "@ + settings_clause)
}

/// Builds the query for a block.
pub fn build_block_metadata_query(
    table: &str,
    slot: u64,
    include_rewards: bool,
    settings_clause: &str,
    supports_prewhere: bool,
) -> (q: String)
    ensures
        q@ == block_metadata_query(table@, slot, include_rewards, settings_clause@, supports_prewhere),
{
    let list = metadata_column_list(include_rewards);
    let mut m = "SELECT
                ".to_owned();
    m.append(list.as_str());
    m.append("
             FROM ");
    m.append(table);
    m.append("
             ");
    m.append(filter_word(supports_prewhere));
    m.append(" slot = ");
    m.append(text::dec_string(slot as u64).as_str());
    m.append("
             LIMIT 1
             ");
    m.append(settings_clause);
    m
}

/// The only condition of the query for a block is that it has the slot that is asked for, and one row
/// is returned.
pub proof fn law_block_is_asked_for_by_its_slot(
    table: Seq<char>,
    slot: u64,
    include_rewards: bool,
    settings_clause: Seq<char>,
    supports_prewhere: bool,
)
    ensures
        sql::reads_as(block_metadata_query(table, slot, include_rewards, settings_clause, supports_prewhere), seq![
            "SELECT"@,
            columns::select_list(metadata_columns(include_rewards)),
            "FROM"@,
            table,
            if supports_prewhere {
                "PREWHERE"@
            } else {
                "WHERE"@
            },
            "slot = "@ + text::dec(slot as nat),
            "LIMIT 1"@,
            settings_clause,
        ]),
{
    let words = sql::first("SELECT"@);
    let words = sql::next(words, 16, columns::select_list(metadata_columns(include_rewards)));
    let words = sql::next(words, 13, "FROM"@);
    let words = sql::next(words, -1, table);
    let words = sql::next(words, 13, if supports_prewhere {
                "PREWHERE"@
            } else {
                "WHERE"@
            });
    let words = sql::next(words, -1, "slot = "@ + text::dec(slot as nat));
    let words = sql::next(words, 13, "LIMIT 1"@);
    let words = sql::next(words, 13, settings_clause);
    assert(sql::reads_as(block_metadata_query(table, slot, include_rewards, settings_clause, supports_prewhere), words.1)) by {
        assert("SELECT
                "@ == "SELECT"@ + sql::gap(16)) by {
            reveal_strlit("SELECT
                ");
            reveal_strlit("SELECT");
        }
        assert("
             FROM "@ == sql::gap(13) + "FROM"@ + sql::gap(-1)) by {
            reveal_strlit("
             FROM ");
            reveal_strlit("FROM");
        }
        assert("
             "@ == sql::gap(13)) by {
            reveal_strlit("
             ");
        }
        assert(" slot = "@ == sql::gap(-1) + "slot = "@) by {
            reveal_strlit(" slot = ");
            reveal_strlit("slot = ");
        }
        assert("
             LIMIT 1
             "@ == sql::gap(13) + "LIMIT 1"@ + sql::gap(13)) by {
            reveal_strlit("
             LIMIT 1
             ");
            reveal_strlit("LIMIT 1");
        }
        broadcast use sql::lemma_joined_first;

        sql::lemma_same_text(block_metadata_query(table, slot, include_rewards, settings_clause, supports_prewhere), words);
    }
    assert(words.1 =~= seq![
        "SELECT"@,
        columns::select_list(metadata_columns(include_rewards)),
        "FROM"@,
        table,
        if supports_prewhere {
                "PREWHERE"@
            } else {
                "WHERE"@
            },
        "slot = "@ + text::dec(slot as nat),
        "LIMIT 1"@,
        settings_clause,
    ]);
}

/// The query for the time of a block.
pub open spec fn block_time_query(
    table: Seq<char>,
    slot: u64,
    settings_clause: Seq<char>,
    supports_prewhere: bool,
) -> Seq<char> {
    ("SELECT
                block_time
             FROM "@ + table + "
             "@ + filter_keyword(supports_prewhere) + " slot = "@ + text::dec(slot as nat) + "
             LIMIT 1
             "@ + settings_clause)
}

/// Builds the query for the time of a block.
pub fn build_block_time_query(
    table: &str,
    slot: u64,
    settings_clause: &str,
    supports_prewhere: bool,
) -> (q: String)
    ensures
        q@ == block_time_query(table@, slot, settings_clause@, supports_prewhere),
{
    let mut m = "SELECT
                block_time
             FROM ".to_owned();
    m.append(table);
    m.append("
             ");
    m.append(filter_word(supports_prewhere));
    m.append(" slot = ");
    m.append(text::dec_string(slot as u64).as_str());
    m.append("
             LIMIT 1
             ");
    m.append(settings_clause);
    m
}

/// The only condition of the query for the time of a block is that it has the slot that is asked for.
pub proof fn law_block_time_is_asked_for_by_its_slot(
    table: Seq<char>,
    slot: u64,
    settings_clause: Seq<char>,
    supports_prewhere: bool,
)
    ensures
        sql::reads_as(block_time_query(table, slot, settings_clause, supports_prewhere), seq![
            "SELECT"@,
            "block_time"@,
            "FROM"@,
            table,
            if supports_prewhere {
                "PREWHERE"@
            } else {
                "WHERE"@
            },
            "slot = "@ + text::dec(slot as nat),
            "LIMIT 1"@,
            settings_clause,
        ]),
{
    let words = sql::first("SELECT"@);
    let words = sql::next(words, 16, "block_time"@);
    let words = sql::next(words, 13, "FROM"@);
    let words = sql::next(words, -1, table);
    let words = sql::next(words, 13, if supports_prewhere {
                "PREWHERE"@
            } else {
                "WHERE"@
            });
    let words = sql::next(words, -1, "slot = "@ + text::dec(slot as nat));
    let words = sql::next(words, 13, "LIMIT 1"@);
    let words = sql::next(words, 13, settings_clause);
    assert(sql::reads_as(block_time_query(table, slot, settings_clause, supports_prewhere), words.1)) by {
        assert("SELECT
                block_time
             FROM "@ == "SELECT"@ + sql::gap(16) + "block_time"@ + sql::gap(13) + "FROM"@ + sql::gap(-1)) by {
            reveal_strlit("SELECT
                block_time
             FROM ");
            reveal_strlit("SELECT");
            reveal_strlit("block_time");
            reveal_strlit("FROM");
        }
        assert("
             "@ == sql::gap(13)) by {
            reveal_strlit("
             ");
        }
        assert(" slot = "@ == sql::gap(-1) + "slot = "@) by {
            reveal_strlit(" slot = ");
            reveal_strlit("slot = ");
        }
        assert("
             LIMIT 1
             "@ == sql::gap(13) + "LIMIT 1"@ + sql::gap(13)) by {
            reveal_strlit("
             LIMIT 1
             ");
            reveal_strlit("LIMIT 1");
        }
        broadcast use sql::lemma_joined_first;

        sql::lemma_same_text(block_time_query(table, slot, settings_clause, supports_prewhere), words);
    }
    assert(words.1 =~= seq![
        "SELECT"@,
        "block_time"@,
        "FROM"@,
        table,
        if supports_prewhere {
                "PREWHERE"@
            } else {
                "WHERE"@
            },
        "slot = "@ + text::dec(slot as nat),
        "LIMIT 1"@,
        settings_clause,
    ]);
}

/// The columns that are read of the transactions of a block.
pub open spec fn transaction_columns(projection: BlockTransactionProjection) -> Seq<Seq<char>> {
    match projection {
        BlockTransactionProjection::Signatures => columns::block_signature(),
        BlockTransactionProjection::Accounts => columns::block_accounts_base()
            + columns::block_transaction_reward(),
        BlockTransactionProjection::Full => columns::block_full_base()
            + columns::block_transaction_reward(),
    }
}

fn transaction_column_list(projection: BlockTransactionProjection) -> (r: String)
    ensures
        r@ == columns::select_list(transaction_columns(projection)),
{
    let all = match projection {
        BlockTransactionProjection::Signatures => columns::block_signature_columns(),
        BlockTransactionProjection::Accounts => with_columns(
            columns::block_accounts_base_columns(),
            columns::block_transaction_reward_columns(),
        ),
        BlockTransactionProjection::Full => with_columns(
            columns::block_full_base_columns(),
            columns::block_transaction_reward_columns(),
        ),
    };
    format_select_columns(all.as_slice())
}

/// The query for the transactions of a block.
pub open spec fn block_transactions_query(
    table: Seq<char>,
    slot: u64,
    projection: BlockTransactionProjection,
    settings_clause: Seq<char>,
) -> Seq<char> {
    ("SELECT
                "@ + columns::select_list(transaction_columns(projection)) + "
             FROM "@ + table + "
             PREWHERE slot = "@ + text::dec(slot as nat) + "
             ORDER BY slot_idx ASC, signature ASC
             LIMIT 1 BY signature
             "@ + settings_clause)
}

/// Builds the query for the transactions of a block, in their order, each once.
pub fn build_block_transactions_query(
    table: &str,
    slot: u64,
    projection: BlockTransactionProjection,
    settings_clause: &str,
) -> (q: String)
    ensures
        q@ == block_transactions_query(table@, slot, projection, settings_clause@),
{
    let list = transaction_column_list(projection);
    let mut m = "SELECT
                ".to_owned();
    m.append(list.as_str());
    m.append("
             FROM ");
    m.append(table);
    m.append("
             PREWHERE slot = ");
    m.append(text::dec_string(slot as u64).as_str());
    m.append("
             ORDER BY slot_idx ASC, signature ASC
             LIMIT 1 BY signature
             ");
    m.append(settings_clause);
    m
}

/// The only condition of the query for the transactions of a block is that they have the slot that is
/// asked for. They come in the order of their places in the block, each once.
pub proof fn law_transactions_are_those_of_the_slot(
    table: Seq<char>,
    slot: u64,
    projection: BlockTransactionProjection,
    settings_clause: Seq<char>,
)
    ensures
        sql::reads_as(block_transactions_query(table, slot, projection, settings_clause), seq![
            "SELECT"@,
            columns::select_list(transaction_columns(projection)),
            "FROM"@,
            table,
            "PREWHERE"@,
            "slot = "@ + text::dec(slot as nat),
            "ORDER BY"@,
            "slot_idx ASC, signature ASC"@,
            "LIMIT 1 BY"@,
            "signature"@,
            settings_clause,
        ]),
{
    let words = sql::first("SELECT"@);
    let words = sql::next(words, 16, columns::select_list(transaction_columns(projection)));
    let words = sql::next(words, 13, "FROM"@);
    let words = sql::next(words, -1, table);
    let words = sql::next(words, 13, "PREWHERE"@);
    let words = sql::next(words, -1, "slot = "@ + text::dec(slot as nat));
    let words = sql::next(words, 13, "ORDER BY"@);
    let words = sql::next(words, -1, "slot_idx ASC, signature ASC"@);
    let words = sql::next(words, 13, "LIMIT 1 BY"@);
    let words = sql::next(words, -1, "signature"@);
    let words = sql::next(words, 13, settings_clause);
    assert(sql::reads_as(block_transactions_query(table, slot, projection, settings_clause), words.1)) by {
        assert("SELECT
                "@ == "SELECT"@ + sql::gap(16)) by {
            reveal_strlit("SELECT
                ");
            reveal_strlit("SELECT");
        }
        assert("
             FROM "@ == sql::gap(13) + "FROM"@ + sql::gap(-1)) by {
            reveal_strlit("
             FROM ");
            reveal_strlit("FROM");
        }
        assert("
             PREWHERE slot = "@ == sql::gap(13) + "PREWHERE"@ + sql::gap(-1) + "slot = "@) by {
            reveal_strlit("
             PREWHERE slot = ");
            reveal_strlit("PREWHERE");
            reveal_strlit("slot = ");
        }
        assert("
             ORDER BY slot_idx ASC, signature ASC
             LIMIT 1 BY signature
             "@ == sql::gap(13) + "ORDER BY"@ + sql::gap(-1) + "slot_idx ASC, signature ASC"@ + sql::gap(13) + "LIMIT 1 BY"@ + sql::gap(-1) + "signature"@ + sql::gap(13)) by {
            reveal_strlit("
             ORDER BY slot_idx ASC, signature ASC
             LIMIT 1 BY signature
             ");
            reveal_strlit("ORDER BY");
            reveal_strlit("slot_idx ASC, signature ASC");
            reveal_strlit("LIMIT 1 BY");
            reveal_strlit("signature");
        }
        broadcast use sql::lemma_joined_first;

        sql::lemma_same_text(block_transactions_query(table, slot, projection, settings_clause), words);
    }
    assert(words.1 =~= seq![
        "SELECT"@,
        columns::select_list(transaction_columns(projection)),
        "FROM"@,
        table,
        "PREWHERE"@,
        "slot = "@ + text::dec(slot as nat),
        "ORDER BY"@,
        "slot_idx ASC, signature ASC"@,
        "LIMIT 1 BY"@,
        "signature"@,
        settings_clause,
    ]);
}

/// The query that finds a blockhash among blocks.
pub open spec fn blockhash_valid_query(
    table: Seq<char>,
    blockhash_literal: Seq<char>,
    start_slot: u64,
    end_slot: u64,
    min_block_height: u64,
    settings_clause: Seq<char>,
) -> Seq<char> {
    ("SELECT 1 AS present
             FROM "@ + table + "
             PREWHERE
                intDiv(slot, "@ + text::dec(SLOT_SHARD_DIVISOR as nat) + ") BETWEEN "@ + text::dec(slots::bucket_of(start_slot) as nat) + " AND "@ + text::dec(slots::bucket_of(end_slot) as nat) + "
                AND slot BETWEEN "@ + text::dec(start_slot as nat) + " AND "@ + text::dec(end_slot as nat) + "
             WHERE blockhash = "@ + blockhash_literal + " AND block_height >= "@ + text::dec(min_block_height as nat) + "
             LIMIT 1
             "@ + settings_clause)
}

/// Builds the query that finds a blockhash among blocks.
pub fn build_blockhash_valid_query(
    table: &str,
    blockhash_literal: &str,
    start_slot: u64,
    end_slot: u64,
    min_block_height: u64,
    settings_clause: &str,
) -> (q: String)
    ensures
        q@ == blockhash_valid_query(
            table@,
            blockhash_literal@,
            start_slot,
            end_slot,
            min_block_height,
            settings_clause@,
        ),
{
    let start_bucket: u64 = start_slot / SLOT_SHARD_DIVISOR;
    let end_bucket: u64 = end_slot / SLOT_SHARD_DIVISOR;
    let mut m = "SELECT 1 AS present
             FROM ".to_owned();
    m.append(table);
    m.append("
             PREWHERE
                intDiv(slot, ");
    m.append(text::dec_string(SLOT_SHARD_DIVISOR as u64).as_str());
    m.append(") BETWEEN ");
    m.append(text::dec_string(start_bucket as u64).as_str());
    m.append(" AND ");
    m.append(text::dec_string(end_bucket as u64).as_str());
    m.append("
                AND slot BETWEEN ");
    m.append(text::dec_string(start_slot as u64).as_str());
    m.append(" AND ");
    m.append(text::dec_string(end_slot as u64).as_str());
    m.append("
             WHERE blockhash = ");
    m.append(blockhash_literal);
    m.append(" AND block_height >= ");
    m.append(text::dec_string(min_block_height as u64).as_str());
    m.append("
             LIMIT 1
             ");
    m.append(settings_clause);
    m
}

/// A blockhash is found where a block between the two slots, both taken in, has it and is high enough.
pub proof fn law_blockhash_is_looked_for_in_its_window(
    table: Seq<char>,
    blockhash_literal: Seq<char>,
    start_slot: u64,
    end_slot: u64,
    min_block_height: u64,
    settings_clause: Seq<char>,
)
    ensures
        sql::reads_as(blockhash_valid_query(table, blockhash_literal, start_slot, end_slot, min_block_height, settings_clause), seq![
            "SELECT"@,
            "1 AS present"@,
            "FROM"@,
            table,
            "PREWHERE"@,
            "intDiv(slot, "@ + text::dec(432000) + ") BETWEEN "@ + text::dec((start_slot / 432000) as nat) + " AND "@ + text::dec((end_slot / 432000) as nat),
            "AND"@,
            "slot BETWEEN "@ + text::dec(start_slot as nat) + " AND "@ + text::dec(end_slot as nat),
            "WHERE"@,
            "blockhash = "@ + blockhash_literal,
            "AND"@,
            "block_height >= "@ + text::dec(min_block_height as nat),
            "LIMIT 1"@,
            settings_clause,
        ]),
{
    let words = sql::first("SELECT"@);
    let words = sql::next(words, -1, "1 AS present"@);
    let words = sql::next(words, 13, "FROM"@);
    let words = sql::next(words, -1, table);
    let words = sql::next(words, 13, "PREWHERE"@);
    let words = sql::next(words, 16, "intDiv(slot, "@ + text::dec(432000) + ") BETWEEN "@ + text::dec((start_slot / 432000) as nat) + " AND "@ + text::dec((end_slot / 432000) as nat));
    let words = sql::next(words, 16, "AND"@);
    let words = sql::next(words, -1, "slot BETWEEN "@ + text::dec(start_slot as nat) + " AND "@ + text::dec(end_slot as nat));
    let words = sql::next(words, 13, "WHERE"@);
    let words = sql::next(words, -1, "blockhash = "@ + blockhash_literal);
    let words = sql::next(words, -1, "AND"@);
    let words = sql::next(words, -1, "block_height >= "@ + text::dec(min_block_height as nat));
    let words = sql::next(words, 13, "LIMIT 1"@);
    let words = sql::next(words, 13, settings_clause);
    assert(sql::reads_as(blockhash_valid_query(table, blockhash_literal, start_slot, end_slot, min_block_height, settings_clause), words.1)) by {
        assert("SELECT 1 AS present
             FROM "@ == "SELECT"@ + sql::gap(-1) + "1 AS present"@ + sql::gap(13) + "FROM"@ + sql::gap(-1)) by {
            reveal_strlit("SELECT 1 AS present
             FROM ");
            reveal_strlit("SELECT");
            reveal_strlit("1 AS present");
            reveal_strlit("FROM");
        }
        assert("
             PREWHERE
                intDiv(slot, "@ == sql::gap(13) + "PREWHERE"@ + sql::gap(16) + "intDiv(slot, "@) by {
            reveal_strlit("
             PREWHERE
                intDiv(slot, ");
            reveal_strlit("PREWHERE");
            reveal_strlit("intDiv(slot, ");
        }
        assert("
                AND slot BETWEEN "@ == sql::gap(16) + "AND"@ + sql::gap(-1) + "slot BETWEEN "@) by {
            reveal_strlit("
                AND slot BETWEEN ");
            reveal_strlit("AND");
            reveal_strlit("slot BETWEEN ");
        }
        assert("
             WHERE blockhash = "@ == sql::gap(13) + "WHERE"@ + sql::gap(-1) + "blockhash = "@) by {
            reveal_strlit("
             WHERE blockhash = ");
            reveal_strlit("WHERE");
            reveal_strlit("blockhash = ");
        }
        assert(" AND block_height >= "@ == sql::gap(-1) + "AND"@ + sql::gap(-1) + "block_height >= "@) by {
            reveal_strlit(" AND block_height >= ");
            reveal_strlit("AND");
            reveal_strlit("block_height >= ");
        }
        assert("
             LIMIT 1
             "@ == sql::gap(13) + "LIMIT 1"@ + sql::gap(13)) by {
            reveal_strlit("
             LIMIT 1
             ");
            reveal_strlit("LIMIT 1");
        }
        broadcast use sql::lemma_joined_first;

        sql::lemma_same_text(blockhash_valid_query(table, blockhash_literal, start_slot, end_slot, min_block_height, settings_clause), words);
    }
    assert(words.1 =~= seq![
        "SELECT"@,
        "1 AS present"@,
        "FROM"@,
        table,
        "PREWHERE"@,
        "intDiv(slot, "@ + text::dec(432000) + ") BETWEEN "@ + text::dec((start_slot / 432000) as nat) + " AND "@ + text::dec((end_slot / 432000) as nat),
        "AND"@,
        "slot BETWEEN "@ + text::dec(start_slot as nat) + " AND "@ + text::dec(end_slot as nat),
        "WHERE"@,
        "blockhash = "@ + blockhash_literal,
        "AND"@,
        "block_height >= "@ + text::dec(min_block_height as nat),
        "LIMIT 1"@,
        settings_clause,
    ]);
}

/// The query for the blocks of a slot range.
pub open spec fn block_metadata_range_query(
    table: Seq<char>,
    start_slot: u64,
    end_slot: u64,
    settings_clause: Seq<char>,
) -> Seq<char> {
    ("SELECT
                "@ + columns::select_list(metadata_columns(true)) + "
             FROM "@ + table + "
             PREWHERE
                intDiv(slot, "@ + text::dec(SLOT_SHARD_DIVISOR as nat) + ") BETWEEN "@ + text::dec(slots::bucket_of(start_slot) as nat) + " AND "@ + text::dec(slots::bucket_of(end_slot) as nat) + "
                AND slot BETWEEN "@ + text::dec(start_slot as nat) + " AND "@ + text::dec(end_slot as nat) + "
             ORDER BY slot ASC
             LIMIT 1 BY slot
             "@ + settings_clause)
}

/// Builds the query for the blocks of a slot range, in their order, with their rewards.
pub fn build_block_metadata_range_query(
    table: &str,
    start_slot: u64,
    end_slot: u64,
    settings_clause: &str,
) -> (q: String)
    ensures
        q@ == block_metadata_range_query(table@, start_slot, end_slot, settings_clause@),
{
    let start_bucket: u64 = start_slot / SLOT_SHARD_DIVISOR;
    let end_bucket: u64 = end_slot / SLOT_SHARD_DIVISOR;
    let list = metadata_column_list(true);
    let mut m = "SELECT
                ".to_owned();
    m.append(list.as_str());
    m.append("
             FROM ");
    m.append(table);
    m.append("
             PREWHERE
                intDiv(slot, ");
    m.append(text::dec_string(SLOT_SHARD_DIVISOR as u64).as_str());
    m.append(") BETWEEN ");
    m.append(text::dec_string(start_bucket as u64).as_str());
    m.append(" AND ");
    m.append(text::dec_string(end_bucket as u64).as_str());
    m.append("
                AND slot BETWEEN ");
    m.append(text::dec_string(start_slot as u64).as_str());
    m.append(" AND ");
    m.append(text::dec_string(end_slot as u64).as_str());
    m.append("
             ORDER BY slot ASC
             LIMIT 1 BY slot
             ");
    m.append(settings_clause);
    m
}

/// The blocks of a range are those between its two slots, both taken in, in their order, each once.
pub proof fn law_blocks_of_a_range_are_all_of_its_slots(
    table: Seq<char>,
    start_slot: u64,
    end_slot: u64,
    settings_clause: Seq<char>,
)
    ensures
        sql::reads_as(block_metadata_range_query(table, start_slot, end_slot, settings_clause), seq![
            "SELECT"@,
            columns::select_list(columns::block_metadata_base() + columns::block_metadata_reward()),
            "FROM"@,
            table,
            "PREWHERE"@,
            "intDiv(slot, "@ + text::dec(432000) + ") BETWEEN "@ + text::dec((start_slot / 432000) as nat) + " AND "@ + text::dec((end_slot / 432000) as nat),
            "AND"@,
            "slot BETWEEN "@ + text::dec(start_slot as nat) + " AND "@ + text::dec(end_slot as nat),
            "ORDER BY"@,
            "slot ASC"@,
            "LIMIT 1 BY"@,
            "slot"@,
            settings_clause,
        ]),
{
    let words = sql::first("SELECT"@);
    let words = sql::next(words, 16, columns::select_list(columns::block_metadata_base() + columns::block_metadata_reward()));
    let words = sql::next(words, 13, "FROM"@);
    let words = sql::next(words, -1, table);
    let words = sql::next(words, 13, "PREWHERE"@);
    let words = sql::next(words, 16, "intDiv(slot, "@ + text::dec(432000) + ") BETWEEN "@ + text::dec((start_slot / 432000) as nat) + " AND "@ + text::dec((end_slot / 432000) as nat));
    let words = sql::next(words, 16, "AND"@);
    let words = sql::next(words, -1, "slot BETWEEN "@ + text::dec(start_slot as nat) + " AND "@ + text::dec(end_slot as nat));
    let words = sql::next(words, 13, "ORDER BY"@);
    let words = sql::next(words, -1, "slot ASC"@);
    let words = sql::next(words, 13, "LIMIT 1 BY"@);
    let words = sql::next(words, -1, "slot"@);
    let words = sql::next(words, 13, settings_clause);
    assert(sql::reads_as(block_metadata_range_query(table, start_slot, end_slot, settings_clause), words.1)) by {
        assert("SELECT
                "@ == "SELECT"@ + sql::gap(16)) by {
            reveal_strlit("SELECT
                ");
            reveal_strlit("SELECT");
        }
        assert("
             FROM "@ == sql::gap(13) + "FROM"@ + sql::gap(-1)) by {
            reveal_strlit("
             FROM ");
            reveal_strlit("FROM");
        }
        assert("
             PREWHERE
                intDiv(slot, "@ == sql::gap(13) + "PREWHERE"@ + sql::gap(16) + "intDiv(slot, "@) by {
            reveal_strlit("
             PREWHERE
                intDiv(slot, ");
            reveal_strlit("PREWHERE");
            reveal_strlit("intDiv(slot, ");
        }
        assert("
                AND slot BETWEEN "@ == sql::gap(16) + "AND"@ + sql::gap(-1) + "slot BETWEEN "@) by {
            reveal_strlit("
                AND slot BETWEEN ");
            reveal_strlit("AND");
            reveal_strlit("slot BETWEEN ");
        }
        assert("
             ORDER BY slot ASC
             LIMIT 1 BY slot
             "@ == sql::gap(13) + "ORDER BY"@ + sql::gap(-1) + "slot ASC"@ + sql::gap(13) + "LIMIT 1 BY"@ + sql::gap(-1) + "slot"@ + sql::gap(13)) by {
            reveal_strlit("
             ORDER BY slot ASC
             LIMIT 1 BY slot
             ");
            reveal_strlit("ORDER BY");
            reveal_strlit("slot ASC");
            reveal_strlit("LIMIT 1 BY");
            reveal_strlit("slot");
        }
        broadcast use sql::lemma_joined_first;

        sql::lemma_same_text(block_metadata_range_query(table, start_slot, end_slot, settings_clause), words);
    }
    assert(words.1 =~= seq![
        "SELECT"@,
        columns::select_list(columns::block_metadata_base() + columns::block_metadata_reward()),
        "FROM"@,
        table,
        "PREWHERE"@,
        "intDiv(slot, "@ + text::dec(432000) + ") BETWEEN "@ + text::dec((start_slot / 432000) as nat) + " AND "@ + text::dec((end_slot / 432000) as nat),
        "AND"@,
        "slot BETWEEN "@ + text::dec(start_slot as nat) + " AND "@ + text::dec(end_slot as nat),
        "ORDER BY"@,
        "slot ASC"@,
        "LIMIT 1 BY"@,
        "slot"@,
        settings_clause,
    ]);
}

/// The query for the number of transactions up to a slot.
pub open spec fn transaction_count_query(
    table: Seq<char>,
    slot: u64,
    inclusive: bool,
    settings_clause: Seq<char>,
) -> Seq<char> {
    let operator = if inclusive {
        "<="@
    } else {
        "<"@
    };
    ("SELECT
                count() AS transaction_count
             FROM "@ + table + "
             PREWHERE slot "@ + operator + " "@ + text::dec(slot as nat) + "
             "@ + settings_clause)
}

/// Builds the query for the number of transactions up to a slot, with or without it.
pub fn build_transaction_count_query(
    table: &str,
    slot: u64,
    inclusive: bool,
    settings_clause: &str,
) -> (q: String)
    ensures
        q@ == transaction_count_query(table@, slot, inclusive, settings_clause@),
{
    let operator = if inclusive {
        "<="
    } else {
        "<"
    };
    let mut m = "SELECT
                count() AS transaction_count
             FROM ".to_owned();
    m.append(table);
    m.append("
             PREWHERE slot ");
    m.append(operator);
    m.append(" ");
    m.append(text::dec_string(slot as u64).as_str());
    m.append("
             ");
    m.append(settings_clause);
    m
}

/// Transactions are counted in all slots before the one that is asked for, and in that one where it is
/// taken in.
pub proof fn law_count_is_up_to_the_slot(
    table: Seq<char>,
    slot: u64,
    inclusive: bool,
    settings_clause: Seq<char>,
)
    ensures
        sql::reads_as(transaction_count_query(table, slot, inclusive, settings_clause), seq![
            "SELECT"@,
            "count() AS transaction_count"@,
            "FROM"@,
            table,
            "PREWHERE"@,
            "slot"@,
            if inclusive {
                "<="@
            } else {
                "<"@
            },
            text::dec(slot as nat),
            settings_clause,
        ]),
{
    let words = sql::first("SELECT"@);
    let words = sql::next(words, 16, "count() AS transaction_count"@);
    let words = sql::next(words, 13, "FROM"@);
    let words = sql::next(words, -1, table);
    let words = sql::next(words, 13, "PREWHERE"@);
    let words = sql::next(words, -1, "slot"@);
    let words = sql::next(words, -1, if inclusive {
                "<="@
            } else {
                "<"@
            });
    let words = sql::next(words, -1, text::dec(slot as nat));
    let words = sql::next(words, 13, settings_clause);
    assert(sql::reads_as(transaction_count_query(table, slot, inclusive, settings_clause), words.1)) by {
        assert("SELECT
                count() AS transaction_count
             FROM "@ == "SELECT"@ + sql::gap(16) + "count() AS transaction_count"@ + sql::gap(13) + "FROM"@ + sql::gap(-1)) by {
            reveal_strlit("SELECT
                count() AS transaction_count
             FROM ");
            reveal_strlit("SELECT");
            reveal_strlit("count() AS transaction_count");
            reveal_strlit("FROM");
        }
        assert("
             PREWHERE slot "@ == sql::gap(13) + "PREWHERE"@ + sql::gap(-1) + "slot"@ + sql::gap(-1)) by {
            reveal_strlit("
             PREWHERE slot ");
            reveal_strlit("PREWHERE");
            reveal_strlit("slot");
        }
        assert(" "@ == sql::gap(-1)) by {
            reveal_strlit(" ");
        }
        assert("
             "@ == sql::gap(13)) by {
            reveal_strlit("
             ");
        }
        broadcast use sql::lemma_joined_first;

        sql::lemma_same_text(transaction_count_query(table, slot, inclusive, settings_clause), words);
    }
    assert(words.1 =~= seq![
        "SELECT"@,
        "count() AS transaction_count"@,
        "FROM"@,
        table,
        "PREWHERE"@,
        "slot"@,
        if inclusive {
                "<="@
            } else {
                "<"@
            },
        text::dec(slot as nat),
        settings_clause,
    ]);
}

/// The number of transactions that a query returned: none where it returned no row.
pub fn count_or_zero(row: Option<u64>) -> (r: u64)
    ensures
        r == (match row {
            Some(n) => n,
            None => 0,
        }),
{
    match row {
        Some(n) => n,
        None => 0,
    }
}

/// Whether a blockhash was found: its query returned a row that says so.
pub fn is_present(row: Option<u8>) -> (r: bool)
    ensures
        r == (row == Some(1u8)),
{
    match row {
        Some(present) => present == 1,
        None => false,
    }
}

/// The lowest slot that a query returned, if it returned a row with one.
pub fn slot_of_row(row: Option<Option<u64>>) -> (r: Option<u64>)
    ensures
        r == (match row {
            Some(slot) => slot,
            None => None,
        }),
{
    match row {
        Some(slot) => slot,
        None => None,
    }
}

/// What is asked of one slot.
#[derive(Clone, Copy, Debug, PartialEq, Eq, Structural)]
pub enum SlotQuestion {
    /// When its block was made.
    BlockTime,
    /// The hash and the height of its block.
    BlockhashHeight,
    /// Its block.
    BlockMetadata,
    /// The transactions of its block.
    Transactions,
}

/// Where something of one slot is read.
#[derive(Clone, Copy, Debug, PartialEq, Eq, Structural)]
pub enum SlotRead {
    /// On this shard, in its own table.
    Local { shard: usize },
    /// In the distributed table, because the shard could not be asked.
    Fallback,
    /// In the distributed table, in the first place.
    Distributed,
    /// In the distributed table, because the shard has nothing.
    Retry,
}

/// What a read returned.
#[derive(Debug)]
pub enum SlotReadReply<T> {
    /// Something.
    Found(T),
    /// Nothing.
    Missing(T),
    /// The query could not be begun.
    NotOpened(ProcessingError),
    /// The query broke off.
    Failed(ProcessingError),
}

/// What follows a read.
#[derive(Debug)]
pub enum SlotReadNext<T> {
    /// This is the answer.
    Answer(T),
    /// Another read.
    Read(SlotRead),
    /// The failure is reported.
    Fail(ProcessingError),
}

/// What follows a read. A shard that has nothing, or that could not be asked, is followed by the
/// distributed table. So is one whose query broke off, except where the time of a block was asked
/// for: there the failure is reported.
pub open spec fn after_slot_read<T>(
    question: SlotQuestion,
    read: SlotRead,
    reply: SlotReadReply<T>,
) -> SlotReadNext<T> {
    match reply {
        SlotReadReply::Found(value) => SlotReadNext::Answer(value),
        SlotReadReply::Missing(value) => if read is Local {
            SlotReadNext::Read(SlotRead::Retry)
        } else {
            SlotReadNext::Answer(value)
        },
        SlotReadReply::NotOpened(e) => if read is Local {
            SlotReadNext::Read(SlotRead::Fallback)
        } else {
            SlotReadNext::Fail(e)
        },
        SlotReadReply::Failed(e) => if read is Local && !(question is BlockTime) {
            SlotReadNext::Read(SlotRead::Fallback)
        } else {
            SlotReadNext::Fail(e)
        },
    }
}

/// Says what follows a read.
pub fn slot_read_next<T>(
    question: SlotQuestion,
    read: SlotRead,
    reply: SlotReadReply<T>,
) -> (r: SlotReadNext<T>)
    ensures
        r == after_slot_read(question, read, reply),
{
    let local = match read {
        SlotRead::Local { .. } => true,
        _ => false,
    };
    match reply {
        SlotReadReply::Found(value) => SlotReadNext::Answer(value),
        SlotReadReply::Missing(value) => if local {
            SlotReadNext::Read(SlotRead::Retry)
        } else {
            SlotReadNext::Answer(value)
        },
        SlotReadReply::NotOpened(e) => if local {
            SlotReadNext::Read(SlotRead::Fallback)
        } else {
            SlotReadNext::Fail(e)
        },
        SlotReadReply::Failed(e) => if local && question != SlotQuestion::BlockTime {
            SlotReadNext::Read(SlotRead::Fallback)
        } else {
            SlotReadNext::Fail(e)
        },
    }
}

/// Two reads are the most, the second is of the distributed table, and what a shard found is never
/// asked for again.
pub proof fn law_slot_reads_end<T>(question: SlotQuestion, read: SlotRead, reply: SlotReadReply<T>)
    ensures
        after_slot_read(question, read, reply) matches SlotReadNext::Read(next) ==> read is Local && !(
        next is Local),
        reply matches SlotReadReply::Found(value) ==> after_slot_read(question, read, reply)
            == SlotReadNext::Answer(value),
        !(read is Local) ==> !(after_slot_read(question, read, reply) is Read),
{
}

/// The query for the hash and the height of a block.
pub open spec fn blockhash_height_query(
    read: SlotRead,
    table: Seq<char>,
    slot: u64,
    settings_clause: Seq<char>,
) -> Seq<char> {
    match read {
        SlotRead::Local { .. } | SlotRead::Distributed => ("SELECT
                            blockhash,
                            block_height
                         FROM "@ + table + "
                         PREWHERE slot = "@ + text::dec(slot as nat) + "
                         LIMIT 1
                         "@ + settings_clause),
        SlotRead::Fallback => ("SELECT
                                    blockhash,
                                    block_height
                                 FROM "@ + table + "
                                 PREWHERE slot = "@ + text::dec(slot as nat) + "
                                 LIMIT 1
                                 "@ + settings_clause),
        SlotRead::Retry => ("SELECT
                        blockhash,
                        block_height
                     FROM "@ + table + "
                     PREWHERE slot = "@ + text::dec(slot as nat) + "
                     LIMIT 1
                     "@ + settings_clause),
    }
}

fn blockhash_height_text(read: SlotRead, table: &str, slot: u64, settings_clause: &str) -> (q: String)
    ensures
        q@ == blockhash_height_query(read, table@, slot, settings_clause@),
{
    match read {
        SlotRead::Local { .. } | SlotRead::Distributed => {
            let mut m = "SELECT
                            blockhash,
                            block_height
                         FROM ".to_owned();
            m.append(table);
            m.append("
                         PREWHERE slot = ");
            m.append(text::dec_string(slot as u64).as_str());
            m.append("
                         LIMIT 1
                         ");
            m.append(settings_clause);
            m
        },
        SlotRead::Fallback => {
            let mut m = "SELECT
                                    blockhash,
                                    block_height
                                 FROM ".to_owned();
            m.append(table);
            m.append("
                                 PREWHERE slot = ");
            m.append(text::dec_string(slot as u64).as_str());
            m.append("
                                 LIMIT 1
                                 ");
            m.append(settings_clause);
            m
        },
        SlotRead::Retry => {
            let mut m = "SELECT
                        blockhash,
                        block_height
                     FROM ".to_owned();
            m.append(table);
            m.append("
                     PREWHERE slot = ");
            m.append(text::dec_string(slot as u64).as_str());
            m.append("
                     LIMIT 1
                     ");
            m.append(settings_clause);
            m
        },
    }
}

/// Wherever the hash and the height of a block are asked for, the only condition is that it has the
/// slot that is asked for.
pub proof fn law_blockhash_is_asked_for_by_its_slot(
    read: SlotRead,
    table: Seq<char>,
    slot: u64,
    settings_clause: Seq<char>,
)
    ensures
        sql::reads_as(blockhash_height_query(read, table, slot, settings_clause), seq![
            "SELECT"@,
            "blockhash,"@,
            "block_height"@,
            "FROM"@,
            table,
            "PREWHERE"@,
            "slot = "@ + text::dec(slot as nat),
            "LIMIT 1"@,
            settings_clause,
        ]),
{
    match read {
        SlotRead::Local { .. } | SlotRead::Distributed => {
            let words = sql::first("SELECT"@);
            let words = sql::next(words, 28, "blockhash,"@);
            let words = sql::next(words, 28, "block_height"@);
            let words = sql::next(words, 25, "FROM"@);
            let words = sql::next(words, -1, table);
            let words = sql::next(words, 25, "PREWHERE"@);
            let words = sql::next(words, -1, "slot = "@ + text::dec(slot as nat));
            let words = sql::next(words, 25, "LIMIT 1"@);
            let words = sql::next(words, 25, settings_clause);
            assert(sql::reads_as(blockhash_height_query(read, table, slot, settings_clause), words.1)) by {
                assert("SELECT
                            blockhash,
                            block_height
                         FROM "@ == "SELECT"@ + sql::gap(28) + "blockhash,"@ + sql::gap(28) + "block_height"@ + sql::gap(25) + "FROM"@ + sql::gap(-1)) by {
                    reveal_strlit("SELECT
                            blockhash,
                            block_height
                         FROM ");
                    reveal_strlit("SELECT");
                    reveal_strlit("blockhash,");
                    reveal_strlit("block_height");
                    reveal_strlit("FROM");
                }
                assert("
                         PREWHERE slot = "@ == sql::gap(25) + "PREWHERE"@ + sql::gap(-1) + "slot = "@) by {
                    reveal_strlit("
                         PREWHERE slot = ");
                    reveal_strlit("PREWHERE");
                    reveal_strlit("slot = ");
                }
                assert("
                         LIMIT 1
                         "@ == sql::gap(25) + "LIMIT 1"@ + sql::gap(25)) by {
                    reveal_strlit("
                         LIMIT 1
                         ");
                    reveal_strlit("LIMIT 1");
                }
                broadcast use sql::lemma_joined_first;

                sql::lemma_same_text(blockhash_height_query(read, table, slot, settings_clause), words);
            }
            assert(words.1 =~= seq![
                "SELECT"@,
                "blockhash,"@,
                "block_height"@,
                "FROM"@,
                table,
                "PREWHERE"@,
                "slot = "@ + text::dec(slot as nat),
                "LIMIT 1"@,
                settings_clause,
            ]);
        },
        SlotRead::Fallback => {
            let words = sql::first("SELECT"@);
            let words = sql::next(words, 36, "blockhash,"@);
            let words = sql::next(words, 36, "block_height"@);
            let words = sql::next(words, 33, "FROM"@);
            let words = sql::next(words, -1, table);
            let words = sql::next(words, 33, "PREWHERE"@);
            let words = sql::next(words, -1, "slot = "@ + text::dec(slot as nat));
            let words = sql::next(words, 33, "LIMIT 1"@);
            let words = sql::next(words, 33, settings_clause);
            assert(sql::reads_as(blockhash_height_query(read, table, slot, settings_clause), words.1)) by {
                assert("SELECT
                                    blockhash,
                                    block_height
                                 FROM "@ == "SELECT"@ + sql::gap(36) + "blockhash,"@ + sql::gap(36) + "block_height"@ + sql::gap(33) + "FROM"@ + sql::gap(-1)) by {
                    reveal_strlit("SELECT
                                    blockhash,
                                    block_height
                                 FROM ");
                    reveal_strlit("SELECT");
                    reveal_strlit("blockhash,");
                    reveal_strlit("block_height");
                    reveal_strlit("FROM");
                }
                assert("
                                 PREWHERE slot = "@ == sql::gap(33) + "PREWHERE"@ + sql::gap(-1) + "slot = "@) by {
                    reveal_strlit("
                                 PREWHERE slot = ");
                    reveal_strlit("PREWHERE");
                    reveal_strlit("slot = ");
                }
                assert("
                                 LIMIT 1
                                 "@ == sql::gap(33) + "LIMIT 1"@ + sql::gap(33)) by {
                    reveal_strlit("
                                 LIMIT 1
                                 ");
                    reveal_strlit("LIMIT 1");
                }
                broadcast use sql::lemma_joined_first;

                sql::lemma_same_text(blockhash_height_query(read, table, slot, settings_clause), words);
            }
            assert(words.1 =~= seq![
                "SELECT"@,
                "blockhash,"@,
                "block_height"@,
                "FROM"@,
                table,
                "PREWHERE"@,
                "slot = "@ + text::dec(slot as nat),
                "LIMIT 1"@,
                settings_clause,
            ]);
        },
        SlotRead::Retry => {
            let words = sql::first("SELECT"@);
            let words = sql::next(words, 24, "blockhash,"@);
            let words = sql::next(words, 24, "block_height"@);
            let words = sql::next(words, 21, "FROM"@);
            let words = sql::next(words, -1, table);
            let words = sql::next(words, 21, "PREWHERE"@);
            let words = sql::next(words, -1, "slot = "@ + text::dec(slot as nat));
            let words = sql::next(words, 21, "LIMIT 1"@);
            let words = sql::next(words, 21, settings_clause);
            assert(sql::reads_as(blockhash_height_query(read, table, slot, settings_clause), words.1)) by {
                assert("SELECT
                        blockhash,
                        block_height
                     FROM "@ == "SELECT"@ + sql::gap(24) + "blockhash,"@ + sql::gap(24) + "block_height"@ + sql::gap(21) + "FROM"@ + sql::gap(-1)) by {
                    reveal_strlit("SELECT
                        blockhash,
                        block_height
                     FROM ");
                    reveal_strlit("SELECT");
                    reveal_strlit("blockhash,");
                    reveal_strlit("block_height");
                    reveal_strlit("FROM");
                }
                assert("
                     PREWHERE slot = "@ == sql::gap(21) + "PREWHERE"@ + sql::gap(-1) + "slot = "@) by {
                    reveal_strlit("
                     PREWHERE slot = ");
                    reveal_strlit("PREWHERE");
                    reveal_strlit("slot = ");
                }
                assert("
                     LIMIT 1
                     "@ == sql::gap(21) + "LIMIT 1"@ + sql::gap(21)) by {
                    reveal_strlit("
                     LIMIT 1
                     ");
                    reveal_strlit("LIMIT 1");
                }
                broadcast use sql::lemma_joined_first;

                sql::lemma_same_text(blockhash_height_query(read, table, slot, settings_clause), words);
            }
            assert(words.1 =~= seq![
                "SELECT"@,
                "blockhash,"@,
                "block_height"@,
                "FROM"@,
                table,
                "PREWHERE"@,
                "slot = "@ + text::dec(slot as nat),
                "LIMIT 1"@,
                settings_clause,
            ]);
        },
    }
}

/// The query for the highest slot.
pub open spec fn max_slot_query(table: Seq<char>, settings_clause: Seq<char>) -> Seq<char> {
    ("SELECT maxOrNull(slot) AS max_slot FROM "@ + table + " "@ + settings_clause)
}

/// The query for the lowest slot.
pub open spec fn min_slot_query(table: Seq<char>, settings_clause: Seq<char>) -> Seq<char> {
    ("SELECT minOrNull(slot) AS min_slot FROM "@ + table + " "@ + settings_clause)
}

/// The query for the slots of a range that have a block.
pub open spec fn block_slots_query(
    table: Seq<char>,
    start_slot: u64,
    end_slot: u64,
    settings_clause: Seq<char>,
) -> Seq<char> {
    ("SELECT
                    groupArray(slot) AS slots
                 FROM "@ + table + "
                 PREWHERE
                    intDiv(slot, "@ + text::dec(SLOT_SHARD_DIVISOR as nat) + ") BETWEEN "@ + text::dec(slots::bucket_of(start_slot) as nat) + " AND "@ + text::dec(slots::bucket_of(end_slot) as nat) + "
                    AND slot BETWEEN "@ + text::dec(start_slot as nat) + " AND "@ + text::dec(end_slot as nat) + "
                 "@ + settings_clause)
}

fn build_block_slots_query(
    table: &str,
    start_slot: u64,
    end_slot: u64,
    settings_clause: &str,
) -> (q: String)
    ensures
        q@ == block_slots_query(table@, start_slot, end_slot, settings_clause@),
{
    let start_bucket: u64 = start_slot / SLOT_SHARD_DIVISOR;
    let end_bucket: u64 = end_slot / SLOT_SHARD_DIVISOR;
    let mut m = "SELECT
                    groupArray(slot) AS slots
                 FROM ".to_owned();
    m.append(table);
    m.append("
                 PREWHERE
                    intDiv(slot, ");
    m.append(text::dec_string(SLOT_SHARD_DIVISOR as u64).as_str());
    m.append(") BETWEEN ");
    m.append(text::dec_string(start_bucket as u64).as_str());
    m.append(" AND ");
    m.append(text::dec_string(end_bucket as u64).as_str());
    m.append("
                    AND slot BETWEEN ");
    m.append(text::dec_string(start_slot as u64).as_str());
    m.append(" AND ");
    m.append(text::dec_string(end_slot as u64).as_str());
    m.append("
                 ");
    m.append(settings_clause);
    m
}

/// The slots of a range are those of blocks between its two ends, both taken in.
pub proof fn law_slots_of_a_range_are_all_of_it(
    table: Seq<char>,
    start_slot: u64,
    end_slot: u64,
    settings_clause: Seq<char>,
)
    ensures
        sql::reads_as(block_slots_query(table, start_slot, end_slot, settings_clause), seq![
            "SELECT"@,
            "groupArray(slot) AS slots"@,
            "FROM"@,
            table,
            "PREWHERE"@,
            "intDiv(slot, "@ + text::dec(432000) + ") BETWEEN "@ + text::dec((start_slot / 432000) as nat) + " AND "@ + text::dec((end_slot / 432000) as nat),
            "AND"@,
            "slot BETWEEN "@ + text::dec(start_slot as nat) + " AND "@ + text::dec(end_slot as nat),
            settings_clause,
        ]),
{
    let words = sql::first("SELECT"@);
    let words = sql::next(words, 20, "groupArray(slot) AS slots"@);
    let words = sql::next(words, 17, "FROM"@);
    let words = sql::next(words, -1, table);
    let words = sql::next(words, 17, "PREWHERE"@);
    let words = sql::next(words, 20, "intDiv(slot, "@ + text::dec(432000) + ") BETWEEN "@ + text::dec((start_slot / 432000) as nat) + " AND "@ + text::dec((end_slot / 432000) as nat));
    let words = sql::next(words, 20, "AND"@);
    let words = sql::next(words, -1, "slot BETWEEN "@ + text::dec(start_slot as nat) + " AND "@ + text::dec(end_slot as nat));
    let words = sql::next(words, 17, settings_clause);
    assert(sql::reads_as(block_slots_query(table, start_slot, end_slot, settings_clause), words.1)) by {
        assert("SELECT
                    groupArray(slot) AS slots
                 FROM "@ == "SELECT"@ + sql::gap(20) + "groupArray(slot) AS slots"@ + sql::gap(17) + "FROM"@ + sql::gap(-1)) by {
            reveal_strlit("SELECT
                    groupArray(slot) AS slots
                 FROM ");
            reveal_strlit("SELECT");
            reveal_strlit("groupArray(slot) AS slots");
            reveal_strlit("FROM");
        }
        assert("
                 PREWHERE
                    intDiv(slot, "@ == sql::gap(17) + "PREWHERE"@ + sql::gap(20) + "intDiv(slot, "@) by {
            reveal_strlit("
                 PREWHERE
                    intDiv(slot, ");
            reveal_strlit("PREWHERE");
            reveal_strlit("intDiv(slot, ");
        }
        assert("
                    AND slot BETWEEN "@ == sql::gap(20) + "AND"@ + sql::gap(-1) + "slot BETWEEN "@) by {
            reveal_strlit("
                    AND slot BETWEEN ");
            reveal_strlit("AND");
            reveal_strlit("slot BETWEEN ");
        }
        assert("
                 "@ == sql::gap(17)) by {
            reveal_strlit("
                 ");
        }
        broadcast use sql::lemma_joined_first;

        sql::lemma_same_text(block_slots_query(table, start_slot, end_slot, settings_clause), words);
    }
    assert(words.1 =~= seq![
        "SELECT"@,
        "groupArray(slot) AS slots"@,
        "FROM"@,
        table,
        "PREWHERE"@,
        "intDiv(slot, "@ + text::dec(432000) + ") BETWEEN "@ + text::dec((start_slot / 432000) as nat) + " AND "@ + text::dec((end_slot / 432000) as nat),
        "AND"@,
        "slot BETWEEN "@ + text::dec(start_slot as nat) + " AND "@ + text::dec(end_slot as nat),
        settings_clause,
    ]);
}

/// The newest slot is the largest of the table.
pub proof fn law_newest_slot_is_the_largest(table: Seq<char>, settings_clause: Seq<char>)
    ensures
        sql::reads_as(max_slot_query(table, settings_clause), seq![
            "SELECT"@,
            "maxOrNull(slot) AS max_slot"@,
            "FROM"@,
            table,
            settings_clause,
        ]),
{
    let words = sql::first("SELECT"@);
    let words = sql::next(words, -1, "maxOrNull(slot) AS max_slot"@);
    let words = sql::next(words, -1, "FROM"@);
    let words = sql::next(words, -1, table);
    let words = sql::next(words, -1, settings_clause);
    assert(sql::reads_as(max_slot_query(table, settings_clause), words.1)) by {
        assert("SELECT maxOrNull(slot) AS max_slot FROM "@ == "SELECT"@ + sql::gap(-1) + "maxOrNull(slot) AS max_slot"@ + sql::gap(-1) + "FROM"@ + sql::gap(-1)) by {
            reveal_strlit("SELECT maxOrNull(slot) AS max_slot FROM ");
            reveal_strlit("SELECT");
            reveal_strlit("maxOrNull(slot) AS max_slot");
            reveal_strlit("FROM");
        }
        assert(" "@ == sql::gap(-1)) by {
            reveal_strlit(" ");
        }
        broadcast use sql::lemma_joined_first;

        sql::lemma_same_text(max_slot_query(table, settings_clause), words);
    }
    assert(words.1 =~= seq![
        "SELECT"@,
        "maxOrNull(slot) AS max_slot"@,
        "FROM"@,
        table,
        settings_clause,
    ]);
}

/// The oldest slot is the smallest of the table.
pub proof fn law_oldest_slot_is_the_smallest(table: Seq<char>, settings_clause: Seq<char>)
    ensures
        sql::reads_as(min_slot_query(table, settings_clause), seq![
            "SELECT"@,
            "minOrNull(slot) AS min_slot"@,
            "FROM"@,
            table,
            settings_clause,
        ]),
{
    let words = sql::first("SELECT"@);
    let words = sql::next(words, -1, "minOrNull(slot) AS min_slot"@);
    let words = sql::next(words, -1, "FROM"@);
    let words = sql::next(words, -1, table);
    let words = sql::next(words, -1, settings_clause);
    assert(sql::reads_as(min_slot_query(table, settings_clause), words.1)) by {
        assert("SELECT minOrNull(slot) AS min_slot FROM "@ == "SELECT"@ + sql::gap(-1) + "minOrNull(slot) AS min_slot"@ + sql::gap(-1) + "FROM"@ + sql::gap(-1)) by {
            reveal_strlit("SELECT minOrNull(slot) AS min_slot FROM ");
            reveal_strlit("SELECT");
            reveal_strlit("minOrNull(slot) AS min_slot");
            reveal_strlit("FROM");
        }
        assert(" "@ == sql::gap(-1)) by {
            reveal_strlit(" ");
        }
        broadcast use sql::lemma_joined_first;

        sql::lemma_same_text(min_slot_query(table, settings_clause), words);
    }
    assert(words.1 =~= seq![
        "SELECT"@,
        "minOrNull(slot) AS min_slot"@,
        "FROM"@,
        table,
        settings_clause,
    ]);
}

/// Whether this is the shard of a slot.
pub open spec fn is_shard_of_slot(topology: ShardTopology, slot: u64, shard: int) -> bool {
    sharding::is_weighted_index(
        topology.weights@,
        topology.total_weight,
        slots::bucket_of(slot) as u64,
        shard,
    )
}

/// Whether this is where something of a slot is read first.
pub open spec fn is_first_read(
    read: SlotRead,
    c: ClickHouseClient,
    local_table: Option<String>,
    slot: u64,
) -> bool {
    if startup::direct(c) && c.shard_topology is Some && local_table is Some {
        read matches SlotRead::Local { shard } && is_shard_of_slot(
            c.shard_topology->0,
            slot,
            shard as int,
        )
    } else {
        read is Distributed
    }
}

/// Whether this is where a question about a slot is asked first. The time, or the hash and the
/// height, of a block are read on its shard only over HTTP.
pub open spec fn is_first_slot_read(
    read: SlotRead,
    c: ClickHouseClient,
    question: SlotQuestion,
    slot: u64,
) -> bool {
    match question {
        SlotQuestion::BlockTime | SlotQuestion::BlockhashHeight => if c.routing_policy.transport is Http {
            is_first_read(read, c, c.blocks_metadata_local_table, slot)
        } else {
            read is Distributed
        },
        SlotQuestion::BlockMetadata => is_first_read(
            read,
            c,
            c.blocks_metadata_local_table,
            slot,
        ),
        SlotQuestion::Transactions => is_first_read(read, c, c.transactions_local_table, slot),
    }
}

/// The table that a read goes to.
pub open spec fn table_of_read(
    read: SlotRead,
    local_table: Option<String>,
    distributed: Seq<char>,
) -> Seq<char> {
    match local_table {
        Some(table) if read is Local => table@,
        _ => distributed,
    }
}

fn table_for<'a>(read: SlotRead, local_table: &'a Option<String>, distributed: &'a str) -> (r:
    &'a str)
    ensures
        r@ == table_of_read(read, *local_table, distributed@),
{
    match (read, local_table) {
        (SlotRead::Local { .. }, Some(table)) => table.as_str(),
        _ => distributed,
    }
}

impl ClickHouseClient {
    fn first_read(&self, local_table: &Option<String>, slot: u64) -> (r: SlotRead)
        ensures
            is_first_read(r, *self, *local_table, slot),
    {
        if self.scope_shard_direct() && local_table.is_some() {
            if let Some(topology) = &self.shard_topology {
                let shard: usize = topology.shard_index_for_hash(slot / SLOT_SHARD_DIVISOR);
                return SlotRead::Local { shard };
            }
        }
        SlotRead::Distributed
    }

    /// Where a question about a slot is asked first.
    pub fn first_slot_read(&self, question: SlotQuestion, slot: u64) -> (r: SlotRead)
        ensures
            is_first_slot_read(r, *self, question, slot),
    {
        match question {
            SlotQuestion::BlockTime | SlotQuestion::BlockhashHeight => if self.transport_http() {
                self.first_read(&self.blocks_metadata_local_table, slot)
            } else {
                SlotRead::Distributed
            },
            SlotQuestion::BlockMetadata => self.first_read(&self.blocks_metadata_local_table, slot),
            SlotQuestion::Transactions => self.first_read(&self.transactions_local_table, slot),
        }
    }

    /// The query for the time of a block.
    pub fn block_time_query_for(
        &self,
        read: SlotRead,
        slot: u64,
        settings_clause: &str,
        supports_prewhere: bool,
    ) -> (q: String)
        ensures
            q@ == block_time_query(
                table_of_read(read, self.blocks_metadata_local_table, self.blocks_metadata_table@),
                slot,
                settings_clause@,
                supports_prewhere,
            ),
    {
        build_block_time_query(
            table_for(
                read,
                &self.blocks_metadata_local_table,
                self.blocks_metadata_table.as_str(),
            ),
            slot,
            settings_clause,
            supports_prewhere,
        )
    }

    /// The query for the hash and the height of a block.
    pub fn blockhash_height_query_for(&self, read: SlotRead, slot: u64, settings_clause: &str) -> (q:
        String)
        ensures
            q@ == blockhash_height_query(
                read,
                table_of_read(read, self.blocks_metadata_local_table, self.blocks_metadata_table@),
                slot,
                settings_clause@,
            ),
    {
        blockhash_height_text(
            read,
            table_for(
                read,
                &self.blocks_metadata_local_table,
                self.blocks_metadata_table.as_str(),
            ),
            slot,
            settings_clause,
        )
    }

    /// The query for a block.
    pub fn block_metadata_query_for(
        &self,
        read: SlotRead,
        slot: u64,
        include_rewards: bool,
        settings_clause: &str,
        supports_prewhere: bool,
    ) -> (q: String)
        ensures
            q@ == block_metadata_query(
                table_of_read(read, self.blocks_metadata_local_table, self.blocks_metadata_table@),
                slot,
                include_rewards,
                settings_clause@,
                supports_prewhere,
            ),
    {
        build_block_metadata_query(
            table_for(
                read,
                &self.blocks_metadata_local_table,
                self.blocks_metadata_table.as_str(),
            ),
            slot,
            include_rewards,
            settings_clause,
            supports_prewhere,
        )
    }

    /// The query for the transactions of a block.
    pub fn block_transactions_query_for(
        &self,
        read: SlotRead,
        slot: u64,
        projection: BlockTransactionProjection,
        settings_clause: &str,
    ) -> (q: String)
        ensures
            q@ == block_transactions_query(
                table_of_read(read, self.transactions_local_table, self.transaction_table@),
                slot,
                projection,
                settings_clause@,
            ),
    {
        build_block_transactions_query(
            table_for(read, &self.transactions_local_table, self.transaction_table.as_str()),
            slot,
            projection,
            settings_clause,
        )
    }

    /// The query for the highest slot.
    pub fn latest_finalized_slot_query(&self, settings_clause: &str) -> (q: String)
        ensures
            q@ == max_slot_query(self.blocks_metadata_table@, settings_clause@),
    {
        let mut m = "SELECT maxOrNull(slot) AS max_slot FROM ".to_owned();
        m.append(self.blocks_metadata_table.as_str());
        m.append(" ");
        m.append(settings_clause);
        m
    }

    /// The query for the lowest slot.
    pub fn first_available_block_query(&self, settings_clause: &str) -> (q: String)
        ensures
            q@ == min_slot_query(self.blocks_metadata_table@, settings_clause@),
    {
        let mut m = "SELECT minOrNull(slot) AS min_slot FROM ".to_owned();
        m.append(self.blocks_metadata_table.as_str());
        m.append(" ");
        m.append(settings_clause);
        m
    }

    /// The query that tells whether a blockhash is valid at a slot: it is that of a block at or
    /// above a height, not too far back.
    pub fn blockhash_valid_query_for(
        &self,
        blockhash: &[u8; 32],
        context_slot: u64,
        min_block_height: u64,
        settings_clause: &str,
    ) -> (q: String)
        ensures
            q@ == blockhash_valid_query(
                self.blocks_metadata_table@,
                ("toFixedString(unhex('"@ + text::hex_upper(blockhash@) + "'), 32)"@),
                if context_slot >= BLOCKHASH_VALID_SLOT_WINDOW {
                    (context_slot - BLOCKHASH_VALID_SLOT_WINDOW) as u64
                } else {
                    0u64
                },
                context_slot,
                min_block_height,
                settings_clause@,
            ),
    {
        let start_slot: u64 = if context_slot >= BLOCKHASH_VALID_SLOT_WINDOW {
            context_slot - BLOCKHASH_VALID_SLOT_WINDOW
        } else {
            0
        };
        let literal = {
            let mut m = "toFixedString(unhex('".to_owned();
            m.append(text::hex_upper_string(blockhash.as_slice()).as_str());
            m.append("'), 32)");
            m
        };
        build_blockhash_valid_query(
            self.blocks_metadata_table.as_str(),
            literal.as_str(),
            start_slot,
            context_slot,
            min_block_height,
            settings_clause,
        )
    }

    /// The query for the number of transactions up to a slot, with it.
    pub fn transaction_count_by_slot_query(&self, slot: u64, settings_clause: &str) -> (q: String)
        ensures
            q@ == transaction_count_query(self.transaction_table@, slot, true, settings_clause@),
    {
        build_transaction_count_query(self.transaction_table.as_str(), slot, true, settings_clause)
    }

    /// The query for the number of transactions before a slot.
    pub fn transaction_count_before_slot_query(&self, slot: u64, settings_clause: &str) -> (q: String)
        ensures
            q@ == transaction_count_query(self.transaction_table@, slot, false, settings_clause@),
    {
        build_transaction_count_query(self.transaction_table.as_str(), slot, false, settings_clause)
    }

    /// The query for the slots of a range that have a block, or nothing where no shard holds any.
    pub fn block_slots_request(&self, start_slot: u64, end_slot: u64, settings_clause: &str) -> (r:
        Option<String>)
        ensures
            if startup::direct(*self) && self.routing_policy.transport is Http
                && self.shard_topology is Some && self.blocks_metadata_local_table is Some
                && start_slot > end_slot {
                r is None
            } else {
                r matches Some(q) && q@ == block_slots_query(
                    self.blocks_metadata_table@,
                    start_slot,
                    end_slot,
                    settings_clause@,
                )
            },
    {
        if self.scope_shard_direct() && self.transport_http()
            && self.blocks_metadata_local_table.is_some() {
            if let Some(topology) = &self.shard_topology {
                let index = |bucket: u64| -> (shard: usize)
                    ensures
                        sharding::is_weighted_index(
                            topology.weights@,
                            topology.total_weight,
                            bucket,
                            shard as int,
                        ),
                {
                    topology.shard_index_for_hash(bucket)
                };
                let shards = shard_indices_for_slot_range(
                    start_slot,
                    end_slot,
                    index,
                );
                proof {
                    lemma_some_first_occurrence(shards@);
                }
                if shards.len() == 0 {
                    return None;
                }
            }
        }
        Some(
            build_block_slots_query(
                self.blocks_metadata_table.as_str(),
                start_slot,
                end_slot,
                settings_clause,
            ),
        )
    }

    /// The parts of a slot range by the shards that hold them, where the blocks (or with
    /// `transactions`, the transactions) of a range are read on shards.
    pub fn range_parts(&self, start_slot: u64, end_slot: u64, transactions: bool) -> (r: Option<
        Vec<ShardSlotRange>,
    >)
        requires
            end_slot < u64::MAX,
        ensures
            ({
                let local_table = if transactions {
                    self.transactions_local_table
                } else {
                    self.blocks_metadata_local_table
                };
                if startup::direct(*self) && self.shard_topology is Some && local_table is Some {
                    &&& r matches Some(parts)
                    &&& parts@.len() == slots::bucket_count(start_slot, end_slot)
                    &&& forall|i: int|
                        0 <= i < parts@.len() ==> {
                            &&& #[trigger] parts@[i] == slots::slot_segment(
                                start_slot,
                                end_slot,
                                i,
                                parts@[i].shard_index,
                            )
                            &&& sharding::is_weighted_index(
                                self.shard_topology->0.weights@,
                                self.shard_topology->0.total_weight,
                                (slots::bucket_of(start_slot) + i) as u64,
                                parts@[i].shard_index as int,
                            )
                        }
                } else {
                    r is None
                }
            }),
    {
        let has_local = if transactions {
            self.transactions_local_table.is_some()
        } else {
            self.blocks_metadata_local_table.is_some()
        };
        if self.scope_shard_direct() && has_local {
            if let Some(topology) = &self.shard_topology {
                let index = |bucket: u64| -> (shard: usize)
                    ensures
                        sharding::is_weighted_index(
                            topology.weights@,
                            topology.total_weight,
                            bucket,
                            shard as int,
                        ),
                {
                    topology.shard_index_for_hash(bucket)
                };
                let parts = shard_slot_ranges_for_slot_range(
                    start_slot,
                    end_slot,
                    index,
                );
                return Some(parts);
            }
        }
        None
    }
}

/// Where the rewards of an epoch are read, in one place for the whole lookup.
#[derive(Debug)]
pub struct RewardSource {
    /// The shard, or else the distributed table.
    pub shard: Option<usize>,
    /// The table.
    pub table: String,
    /// The cluster on which an abandoned query is ended. On a shard it is ended there.
    pub cleanup_cluster: Option<String>,
}

impl ClickHouseClient {
    /// Where the rewards that are paid from a slot on are read.
    pub fn reward_source(&self, start_slot: u64) -> (r: RewardSource)
        ensures
            if startup::direct(*self) && self.shard_topology is Some
                && self.blocks_metadata_local_table is Some {
                &&& r.shard matches Some(shard)
                &&& is_shard_of_slot(self.shard_topology->0, start_slot, shard as int)
                &&& r.table@ == self.blocks_metadata_local_table->0@
                &&& r.cleanup_cluster is None
            } else {
                &&& r.shard is None
                &&& r.table@ == self.blocks_metadata_table@
                &&& sharding::opt_text(r.cleanup_cluster) == (match self.shard_routing {
                    Some(config) => Some(config.cluster@),
                    None => None,
                })
            },
    {
        if self.scope_shard_direct() {
            if let (Some(topology), Some(local_table)) = (
                &self.shard_topology,
                &self.blocks_metadata_local_table,
            ) {
                let shard: usize = topology.shard_index_for_hash(start_slot / SLOT_SHARD_DIVISOR);
                return RewardSource {
                    shard: Some(shard),
                    table: local_table.clone(),
                    cleanup_cluster: None,
                };
            }
        }
        let cleanup_cluster = match &self.shard_routing {
            Some(config) => Some(config.cluster.clone()),
            None => None,
        };
        RewardSource { shard: None, table: self.blocks_metadata_table.clone(), cleanup_cluster }
    }
}

proof fn lemma_some_first_occurrence(s: Seq<usize>)
    ensures
        forall|outs: Seq<usize>|
            s == #[trigger] crate::lists::first_occurrences(outs) ==> (s.len() == 0 <==> outs.len()
                == 0),
{
    assert forall|outs: Seq<usize>| s == #[trigger] crate::lists::first_occurrences(outs) implies (
    s.len() == 0 <==> outs.len() == 0) by {
        crate::lists::law_first_occurrences_distinct_and_complete(outs);
        if outs.len() > 0 {
            assert(outs.contains(outs[0]));
            assert(s.contains(outs[0]));
        }
    }
}

/// The records of the parts of a slot range, one part after the other.
pub open spec fn joined<T>(parts: Seq<Option<Vec<T>>>) -> Seq<T>
    decreases parts.len(),
{
    if parts.len() == 0 {
        Seq::empty()
    } else {
        joined(parts.drop_last()) + match parts.last() {
            Some(records) => records@,
            None => Seq::empty(),
        }
    }
}

/// Puts the parts of a slot range together. One that could not be read leaves nothing: the range is
/// then read in the distributed table.
pub fn join_range_parts<T>(parts: Vec<Option<Vec<T>>>) -> (r: Option<Vec<T>>)
    ensures
        match r {
            Some(records) => {
                &&& forall|i: int| 0 <= i < parts@.len() ==> (#[trigger] parts@[i]) is Some
                &&& records@ == joined(parts@)
            },
            None => exists|i: int| 0 <= i < parts@.len() && (#[trigger] parts@[i]) is None,
        },
{
    let ghost all = parts@;
    let mut pending = parts;
    let mut records: Vec<T> = Vec::new();
    let ghost mut i: int = 0;
    proof {
        assert(all.take(0) =~= Seq::empty());
        assert(all.skip(0) =~= all);
    }
    while pending.len() > 0
        invariant
            0 <= i <= all.len(),
            all == parts@,
            pending@ == all.skip(i),
            records@ == joined(all.take(i)),
            forall|k: int| 0 <= k < i ==> (#[trigger] all[k]) is Some,
        decreases pending@.len(),
    {
        let part = pending.remove(0);
        proof {
            assert(part == all[i]);
            assert(all.take(i + 1).drop_last() =~= all.take(i));
            assert(all.take(i + 1).last() == part);
            assert(pending@ =~= all.skip(i + 1));
            i = i + 1;
        }
        match part {
            Some(mut more) => {
                records.append(&mut more);
            },
            None => {
                return None;
            },
        }
    }
    assert(all.take(i) =~= all);
    Some(records)
}

/// The records of a range of slots are those of all its parts.
pub proof fn law_every_part_counts<T>(parts: Seq<Option<Vec<T>>>, record: T)
    ensures
        joined(parts).contains(record) <==> exists|i: int|
            0 <= i < parts.len() && (#[trigger] parts[i]) is Some && parts[i]->0@.contains(record),
    decreases parts.len(),
{
    if parts.len() > 0 {
        let rest = parts.drop_last();
        law_every_part_counts(rest, record);
        let a = joined(rest);
        let b = match parts.last() {
            Some(records) => records@,
            None => Seq::empty(),
        };
        if a.contains(record) {
            let i = choose|i: int|
                0 <= i < rest.len() && (#[trigger] rest[i]) is Some && rest[i]->0@.contains(record);
            assert(parts[i] == rest[i]);
            assert((a + b)[a.index_of(record)] == record);
        }
        if b.contains(record) {
            assert(parts[parts.len() - 1] == parts.last());
            assert((a + b)[a.len() + b.index_of(record)] == record);
        }
        if (a + b).contains(record) {
            let p = (a + b).index_of(record);
            assert(if p < a.len() {
                a[p] == record
            } else {
                b[p - a.len()] == record
            });
        }
        if exists|i: int|
            0 <= i < parts.len() && (#[trigger] parts[i]) is Some && parts[i]->0@.contains(record) {
            let i = choose|i: int|
                0 <= i < parts.len() && (#[trigger] parts[i]) is Some && parts[i]->0@.contains(record);
            if i < rest.len() {
                assert(rest[i] == parts[i]);
            }
        }
    }
}

/// A read goes to the local table only where it asks the shard itself, and then wherever there is one.
pub proof fn law_local_reads_use_the_local_table(
    read: SlotRead,
    local_table: Option<String>,
    distributed: Seq<char>,
)
    ensures
        read is Local ==> (local_table matches Some(table) ==> table_of_read(
            read,
            local_table,
            distributed,
        ) == table@),
        !(read is Local) || local_table is None ==> table_of_read(read, local_table, distributed)
            == distributed,
{
}

/// A shard that has nothing, that could not be asked, or whose query broke off is followed by the
/// distributed table; only where the time of a block was asked for, a query that broke off is reported.
/// What the distributed table says is final.
pub proof fn law_shard_is_followed_by_the_distributed_table<T>(
    question: SlotQuestion,
    read: SlotRead,
    reply: SlotReadReply<T>,
)
    ensures
        ({
            let next = after_slot_read(question, read, reply);
            &&& next is Read <==> read is Local && !(reply is Found) && !(reply is Failed
                && question is BlockTime)
            &&& next == SlotReadNext::<T>::Read(SlotRead::Retry) <==> read is Local && reply is Missing
            &&& next is Answer <==> reply is Found || (reply is Missing && !(read is Local))
            &&& next matches SlotReadNext::Answer(value) ==> reply == SlotReadReply::Found(value) || reply
                == SlotReadReply::Missing(value)
            &&& next matches SlotReadNext::Fail(e) ==> reply == SlotReadReply::<T>::NotOpened(e) || reply
                == SlotReadReply::<T>::Failed(e)
        }),
{
}

/// Rewards are read exactly where they are asked for, and of a transaction wherever more than its
/// signature is.
pub proof fn law_rewards_are_read_where_asked_for(projection: BlockTransactionProjection)
    ensures
        metadata_columns(true).contains("rewards_pubkey"@),
        metadata_columns(true).contains("rewards_lamports"@),
        metadata_columns(true).contains("rewards_type"@),
        metadata_columns(false) == columns::block_metadata_base(),
        metadata_columns(false).is_prefix_of(metadata_columns(true)),
        !metadata_columns(false).contains("rewards_pubkey"@),
        !metadata_columns(false).contains("rewards_lamports"@),
        transaction_columns(BlockTransactionProjection::Signatures) == seq!["signature"@],
        !(projection is Signatures) ==> transaction_columns(projection).contains("meta_reward_pubkey"@)
            && transaction_columns(projection).contains("meta_reward_lamports"@),
        transaction_columns(BlockTransactionProjection::Accounts).contains("tx_account_keys"@),
        transaction_columns(BlockTransactionProjection::Full).contains("tx_account_keys"@),
        transaction_columns(BlockTransactionProjection::Full).contains("tx_instructions_data"@),
        transaction_columns(BlockTransactionProjection::Full).contains("meta_log_messages"@),
{
    let base = columns::block_metadata_base();
    let reward = columns::block_metadata_reward();
    let both = metadata_columns(true);
    assert(both[base.len() as int + 1] == reward[1]);
    assert(both[base.len() as int + 2] == reward[2]);
    assert(both[base.len() as int + 4] == reward[4]);
    assert(both.take(base.len() as int) =~= base);
    columns::lemma_metadata_without_rewards();
    let paid = columns::block_transaction_reward();
    let accounts = columns::block_accounts_base();
    let full = columns::block_full_base();
    assert((accounts + paid)[accounts.len() as int + 1] == paid[1]);
    assert((accounts + paid)[accounts.len() as int + 2] == paid[2]);
    assert((full + paid)[full.len() as int + 1] == paid[1]);
    assert((full + paid)[full.len() as int + 2] == paid[2]);
    assert((accounts + paid)[5] == accounts[5]);
    assert((full + paid)[6] == full[6]);
    assert((full + paid)[14] == full[14]);
    assert((full + paid)[31] == full[31]);
}

/// A slot is read on its shard only where queries go to shards, the shards are known and there is a local
/// table; otherwise in the distributed table. The time, or the hash and the height, of a block are read on
/// a shard only over HTTP.
pub proof fn law_slot_is_read_on_its_shard(
    read: SlotRead,
    c: ClickHouseClient,
    question: SlotQuestion,
    slot: u64,
)
    requires
        is_first_slot_read(read, c, question, slot),
    ensures
        read is Local || read is Distributed,
        read matches SlotRead::Local { shard } ==> {
            &&& c.routing_policy.scope is ShardDirect
            &&& c.shard_topology matches Some(topology) && sharding::is_weighted_index(
                topology.weights@,
                topology.total_weight,
                slots::bucket_of(slot) as u64,
                shard as int,
            )
            &&& question is BlockTime || question is BlockhashHeight ==> c.routing_policy.transport is Http
            &&& question is Transactions ==> c.transactions_local_table is Some
            &&& !(question is Transactions) ==> c.blocks_metadata_local_table is Some
        },
        read is Distributed ==> {
            ||| !(c.routing_policy.scope is ShardDirect)
            ||| c.shard_topology is None
            ||| question is Transactions && c.transactions_local_table is None
            ||| !(question is Transactions) && c.blocks_metadata_local_table is None
            ||| (question is BlockTime || question is BlockhashHeight) && !(
            c.routing_policy.transport is Http)
        },
{
}

} // verus!
