//! The history of signatures of an address: its queries, the ways to read it, and how the replies
//! of several shards become one page.
use std::cmp::Ordering;

use vstd::prelude::*;

use crate::clickhouse::client;
use crate::clickhouse::client::ClickHouseClient;
use crate::clickhouse::queries;
use crate::clickhouse::queries::{build_hot_position_pagination_clauses, build_pagination_clauses};
use crate::clickhouse::sharding;
use crate::clickhouse::sharding::{ShardTarget, ShardTopology};
use crate::clickhouse::sql;
use crate::clickhouse::startup;
use crate::clickhouse::types::{SignatureRecord, SlotBoundary};
use crate::hashing;
use crate::processing::ProcessingError;
use crate::text;
use crate::text_search;

verus! {

/// The columns of a signature in a history.
pub open spec fn gsfa_outer() -> Seq<char> {
    "SELECT
            base58Encode(signature) as signature,
            slot,
            slot_idx,
            err,
            memo,
            block_time
         FROM
         (
             SELECT
                 signature,
                 slot,
                 slot_idx,
                 err,
                 memo,
                 block_time
             FROM "@
}

/// The query for the newest signatures of an address.
pub open spec fn gsfa_query(
    with_clause: Seq<char>,
    gsfa_table: Seq<char>,
    addr_bucket: u64,
    address_literal: Seq<char>,
    where_clause: Seq<char>,
    limit: u64,
    settings_clause: Seq<char>,
) -> Seq<char> {
    (with_clause + gsfa_outer() + gsfa_table + "
             PREWHERE
                 addr_bucket = "@ + text::dec(addr_bucket as nat) + "
                 AND address = "@ + address_literal + "
             WHERE "@ + where_clause + "
             ORDER BY slot DESC, slot_idx DESC, signature
             LIMIT "@ + text::dec(limit as nat) + "
             "@ + settings_clause + "
         )"@)
}

/// Builds the query for the newest signatures of an address.
pub fn build_gsfa_signatures_query(
    with_clause: &str,
    gsfa_table: &str,
    addr_bucket: u64,
    address_literal: &str,
    where_clause: &str,
    limit: u64,
    settings_clause: &str,
) -> (q: String)
    ensures
        q@ == gsfa_query(
            with_clause@,
            gsfa_table@,
            addr_bucket,
            address_literal@,
            where_clause@,
            limit,
            settings_clause@,
        ),
{
    let mut m = with_clause.to_owned();
    m.append("SELECT
            base58Encode(signature) as signature,
            slot,
            slot_idx,
            err,
            memo,
            block_time
         FROM
         (
             SELECT
                 signature,
                 slot,
                 slot_idx,
                 err,
                 memo,
                 block_time
             FROM ");
    m.append(gsfa_table);
    m.append("
             PREWHERE
                 addr_bucket = ");
    m.append(text::dec_string(addr_bucket as u64).as_str());
    m.append("
                 AND address = ");
    m.append(address_literal);
    m.append("
             WHERE ");
    m.append(where_clause);
    m.append("
             ORDER BY slot DESC, slot_idx DESC, signature
             LIMIT ");
    m.append(text::dec_string(limit as u64).as_str());
    m.append("
             ");
    m.append(settings_clause);
    m.append("
         )");
    m
}

/// A page of the history of an address holds its newest entries within the bounds of the page, newest
/// first: the entries are ordered once, before the limit, and nothing follows that could order them
/// anew.
#[verifier::rlimit(50)]
pub proof fn law_history_is_newest_first(
    with_clause: Seq<char>,
    gsfa_table: Seq<char>,
    addr_bucket: u64,
    address_literal: Seq<char>,
    where_clause: Seq<char>,
    limit: u64,
    settings_clause: Seq<char>,
)
    ensures
        sql::reads_as(gsfa_query(with_clause, gsfa_table, addr_bucket, address_literal, where_clause, limit, settings_clause), seq![
            with_clause + "SELECT"@,
            "base58Encode(signature) as signature,"@,
            "slot,"@,
            "slot_idx,"@,
            "err,"@,
            "memo,"@,
            "block_time"@,
            "FROM"@,
            "("@,
            "SELECT"@,
            "signature,"@,
            "slot,"@,
            "slot_idx,"@,
            "err,"@,
            "memo,"@,
            "block_time"@,
            "FROM"@,
            gsfa_table,
            "PREWHERE"@,
            "addr_bucket = "@ + text::dec(addr_bucket as nat),
            "AND"@,
            "address = "@ + address_literal,
            "WHERE"@,
            where_clause,
            "ORDER BY"@,
            "slot DESC, slot_idx DESC, signature"@,
            "LIMIT"@,
            text::dec(limit as nat),
            settings_clause,
            ")"@,
        ]),
{
    let words = sql::first(with_clause + "SELECT"@);
    let words = sql::next(words, 12, "base58Encode(signature) as signature,"@);
    let words = sql::next(words, 12, "slot,"@);
    let words = sql::next(words, 12, "slot_idx,"@);
    let words = sql::next(words, 12, "err,"@);
    let words = sql::next(words, 12, "memo,"@);
    let words = sql::next(words, 12, "block_time"@);
    let words = sql::next(words, 9, "FROM"@);
    let words = sql::next(words, 9, "("@);
    let words = sql::next(words, 13, "SELECT"@);
    let words = sql::next(words, 17, "signature,"@);
    let words = sql::next(words, 17, "slot,"@);
    let words = sql::next(words, 17, "slot_idx,"@);
    let words = sql::next(words, 17, "err,"@);
    let words = sql::next(words, 17, "memo,"@);
    let words = sql::next(words, 17, "block_time"@);
    let words = sql::next(words, 13, "FROM"@);
    let words = sql::next(words, -1, gsfa_table);
    let words = sql::next(words, 13, "PREWHERE"@);
    let words = sql::next(words, 17, "addr_bucket = "@ + text::dec(addr_bucket as nat));
    let words = sql::next(words, 17, "AND"@);
    let words = sql::next(words, -1, "address = "@ + address_literal);
    let words = sql::next(words, 13, "WHERE"@);
    let words = sql::next(words, -1, where_clause);
    let words = sql::next(words, 13, "ORDER BY"@);
    let words = sql::next(words, -1, "slot DESC, slot_idx DESC, signature"@);
    let words = sql::next(words, 13, "LIMIT"@);
    let words = sql::next(words, -1, text::dec(limit as nat));
    let words = sql::next(words, 13, settings_clause);
    let words = sql::next(words, 9, ")"@);
    assert(sql::reads_as(gsfa_query(with_clause, gsfa_table, addr_bucket, address_literal, where_clause, limit, settings_clause), words.1)) by {
        assert("SELECT
            base58Encode(signature) as signature,
            slot,
            slot_idx,
            err,
            memo,
            block_time
         FROM
         (
             SELECT
                 signature,
                 slot,
                 slot_idx,
                 err,
                 memo,
                 block_time
             FROM "@ == "SELECT"@ + sql::gap(12) + "base58Encode(signature) as signature,"@ + sql::gap(12) + "slot,"@ + sql::gap(12) + "slot_idx,"@ + sql::gap(12) + "err,"@ + sql::gap(12) + "memo,"@ + sql::gap(12) + "block_time"@ + sql::gap(9) + "FROM"@ + sql::gap(9) + "("@ + sql::gap(13) + "SELECT"@ + sql::gap(17) + "signature,"@ + sql::gap(17) + "slot,"@ + sql::gap(17) + "slot_idx,"@ + sql::gap(17) + "err,"@ + sql::gap(17) + "memo,"@ + sql::gap(17) + "block_time"@ + sql::gap(13) + "FROM"@ + sql::gap(-1)) by {
            reveal_strlit("SELECT
            base58Encode(signature) as signature,
            slot,
            slot_idx,
            err,
            memo,
            block_time
         FROM
         (
             SELECT
                 signature,
                 slot,
                 slot_idx,
                 err,
                 memo,
                 block_time
             FROM ");
            reveal_strlit("SELECT");
            reveal_strlit("base58Encode(signature) as signature,");
            reveal_strlit("slot,");
            reveal_strlit("slot_idx,");
            reveal_strlit("err,");
            reveal_strlit("memo,");
            reveal_strlit("block_time");
            reveal_strlit("FROM");
            reveal_strlit("(");
            reveal_strlit("signature,");
        }
        assert("
             PREWHERE
                 addr_bucket = "@ == sql::gap(13) + "PREWHERE"@ + sql::gap(17) + "addr_bucket = "@) by {
            reveal_strlit("
             PREWHERE
                 addr_bucket = ");
            reveal_strlit("PREWHERE");
            reveal_strlit("addr_bucket = ");
        }
        assert("
                 AND address = "@ == sql::gap(17) + "AND"@ + sql::gap(-1) + "address = "@) by {
            reveal_strlit("
                 AND address = ");
            reveal_strlit("AND");
            reveal_strlit("address = ");
        }
        assert("
             WHERE "@ == sql::gap(13) + "WHERE"@ + sql::gap(-1)) by {
            reveal_strlit("
             WHERE ");
            reveal_strlit("WHERE");
        }
        assert("
             ORDER BY slot DESC, slot_idx DESC, signature
             LIMIT "@ == sql::gap(13) + "ORDER BY"@ + sql::gap(-1) + "slot DESC, slot_idx DESC, signature"@ + sql::gap(13) + "LIMIT"@ + sql::gap(-1)) by {
            reveal_strlit("
             ORDER BY slot DESC, slot_idx DESC, signature
             LIMIT ");
            reveal_strlit("ORDER BY");
            reveal_strlit("slot DESC, slot_idx DESC, signature");
            reveal_strlit("LIMIT");
        }
        assert("
             "@ == sql::gap(13)) by {
            reveal_strlit("
             ");
        }
        assert("
         )"@ == sql::gap(9) + ")"@) by {
            reveal_strlit("
         )");
            reveal_strlit(")");
        }
        broadcast use sql::lemma_joined_first;

        sql::lemma_same_text(gsfa_query(with_clause, gsfa_table, addr_bucket, address_literal, where_clause, limit, settings_clause), words);
    }
    assert(words.1 =~= seq![
        with_clause + "SELECT"@,
        "base58Encode(signature) as signature,"@,
        "slot,"@,
        "slot_idx,"@,
        "err,"@,
        "memo,"@,
        "block_time"@,
        "FROM"@,
        "("@,
        "SELECT"@,
        "signature,"@,
        "slot,"@,
        "slot_idx,"@,
        "err,"@,
        "memo,"@,
        "block_time"@,
        "FROM"@,
        gsfa_table,
        "PREWHERE"@,
        "addr_bucket = "@ + text::dec(addr_bucket as nat),
        "AND"@,
        "address = "@ + address_literal,
        "WHERE"@,
        where_clause,
        "ORDER BY"@,
        "slot DESC, slot_idx DESC, signature"@,
        "LIMIT"@,
        text::dec(limit as nat),
        settings_clause,
        ")"@,
    ]);
}

/// In the table of all transactions, the newest signatures of an address are those of transactions that
/// have it among their account keys. They come newest first, and the memo is made of the memo programs'
/// data.
#[verifier::spinoff_prover]
#[verifier::rlimit(100)]
pub proof fn law_transactions_with_the_address_come_newest_first(
    transaction_table: Seq<char>,
    address_literal: Seq<char>,
    where_clause: Seq<char>,
    limit: u64,
    settings_clause: Seq<char>,
)
    ensures
        sql::reads_as(fallback_query(Seq::empty(), transaction_table, address_literal, where_clause, limit, settings_clause), seq![
            "SELECT"@,
            "base58Encode(signature) as signature,"@,
            "slot,"@,
            "slot_idx,"@,
            "err,"@,
            "memo,"@,
            "block_time"@,
            "FROM ("@,
            "WITH arrayConcat(tx_account_keys, meta_loaded_addresses_writable, meta_loaded_addresses_readonly) AS account_keys_all"@,
            "SELECT"@,
            "signature,"@,
            "slot,"@,
            "slot_idx,"@,
            "block_time,"@,
            "if(meta_status_ok = 1, NULL, meta_err) AS err,"@,
            "nullIf("@,
            "arrayStringConcat("@,
            "arrayMap(x -> x.2,"@,
            "arrayFilter("@,
            "x -> has(memo_program_ids, x.1) AND isValidUTF8(x.2),"@,
            "arrayZip("@,
            "arrayMap(idx -> arrayElement(account_keys_all, idx + 1), tx_instructions_program_id_index),"@,
            "tx_instructions_data"@,
            ")"@,
            ")"@,
            "),"@,
            "'; '"@,
            "),"@,
            "''"@,
            ") AS memo"@,
            "FROM"@,
            transaction_table,
            "WHERE"@,
            "has(account_keys_all, "@ + address_literal + ")"@,
            ")"@,
            "WHERE"@,
            where_clause,
            "ORDER BY"@,
            "slot DESC, slot_idx DESC, signature"@,
            "LIMIT"@,
            text::dec(limit as nat),
            settings_clause,
        ]),
{
    let words = sql::first("SELECT"@);
    let words = sql::next(words, 16, "base58Encode(signature) as signature,"@);
    let words = sql::next(words, 16, "slot,"@);
    let words = sql::next(words, 16, "slot_idx,"@);
    let words = sql::next(words, 16, "err,"@);
    let words = sql::next(words, 16, "memo,"@);
    let words = sql::next(words, 16, "block_time"@);
    let words = sql::next(words, 13, "FROM ("@);
    let words = sql::next(words, 17, "WITH arrayConcat(tx_account_keys, meta_loaded_addresses_writable, meta_loaded_addresses_readonly) AS account_keys_all"@);
    let words = sql::next(words, 17, "SELECT"@);
    let words = sql::next(words, 21, "signature,"@);
    let words = sql::next(words, 21, "slot,"@);
    let words = sql::next(words, 21, "slot_idx,"@);
    let words = sql::next(words, 21, "block_time,"@);
    let words = sql::next(words, 21, "if(meta_status_ok = 1, NULL, meta_err) AS err,"@);
    let words = sql::next(words, 21, "nullIf("@);
    let words = sql::next(words, 25, "arrayStringConcat("@);
    let words = sql::next(words, 29, "arrayMap(x -> x.2,"@);
    let words = sql::next(words, 33, "arrayFilter("@);
    let words = sql::next(words, 37, "x -> has(memo_program_ids, x.1) AND isValidUTF8(x.2),"@);
    let words = sql::next(words, 37, "arrayZip("@);
    let words = sql::next(words, 41, "arrayMap(idx -> arrayElement(account_keys_all, idx + 1), tx_instructions_program_id_index),"@);
    let words = sql::next(words, 41, "tx_instructions_data"@);
    let words = sql::next(words, 37, ")"@);
    let words = sql::next(words, 33, ")"@);
    let words = sql::next(words, 29, "),"@);
    let words = sql::next(words, 29, "'; '"@);
    let words = sql::next(words, 25, "),"@);
    let words = sql::next(words, 25, "''"@);
    let words = sql::next(words, 21, ") AS memo"@);
    let words = sql::next(words, 17, "FROM"@);
    let words = sql::next(words, -1, transaction_table);
    let words = sql::next(words, 17, "WHERE"@);
    let words = sql::next(words, -1, "has(account_keys_all, "@ + address_literal + ")"@);
    let words = sql::next(words, 13, ")"@);
    let words = sql::next(words, 13, "WHERE"@);
    let words = sql::next(words, -1, where_clause);
    let words = sql::next(words, 13, "ORDER BY"@);
    let words = sql::next(words, -1, "slot DESC, slot_idx DESC, signature"@);
    let words = sql::next(words, 13, "LIMIT"@);
    let words = sql::next(words, -1, text::dec(limit as nat));
    let words = sql::next(words, 13, settings_clause);
    assert(sql::reads_as(fallback_query(Seq::empty(), transaction_table, address_literal, where_clause, limit, settings_clause), words.1)) by {
        assert("SELECT
                base58Encode(signature) as signature,
                slot,
                slot_idx,
                err,
                memo,
                block_time
             FROM (
                 WITH arrayConcat(tx_account_keys, meta_loaded_addresses_writable, meta_loaded_addresses_readonly) AS account_keys_all
                 SELECT
                     signature,
                     slot,
                     slot_idx,
                     block_time,
                     if(meta_status_ok = 1, NULL, meta_err) AS err,
                     nullIf(
                         arrayStringConcat(
                             arrayMap(x -> x.2,
                                 arrayFilter(
                                     x -> has(memo_program_ids, x.1) AND isValidUTF8(x.2),
                                     arrayZip(
                                         arrayMap(idx -> arrayElement(account_keys_all, idx + 1), tx_instructions_program_id_index),
                                         tx_instructions_data
                                     )
                                 )
                             ),
                             '; '
                         ),
                         ''
                     ) AS memo
                 FROM "@ == "SELECT"@ + sql::gap(16) + "base58Encode(signature) as signature,"@ + sql::gap(16) + "slot,"@ + sql::gap(16) + "slot_idx,"@ + sql::gap(16) + "err,"@ + sql::gap(16) + "memo,"@ + sql::gap(16) + "block_time"@ + sql::gap(13) + "FROM ("@ + sql::gap(17) + "WITH arrayConcat(tx_account_keys, meta_loaded_addresses_writable, meta_loaded_addresses_readonly) AS account_keys_all"@ + sql::gap(17) + "SELECT"@ + sql::gap(21) + "signature,"@ + sql::gap(21) + "slot,"@ + sql::gap(21) + "slot_idx,"@ + sql::gap(21) + "block_time,"@ + sql::gap(21) + "if(meta_status_ok = 1, NULL, meta_err) AS err,"@ + sql::gap(21) + "nullIf("@ + sql::gap(25) + "arrayStringConcat("@ + sql::gap(29) + "arrayMap(x -> x.2,"@ + sql::gap(33) + "arrayFilter("@ + sql::gap(37) + "x -> has(memo_program_ids, x.1) AND isValidUTF8(x.2),"@ + sql::gap(37) + "arrayZip("@ + sql::gap(41) + "arrayMap(idx -> arrayElement(account_keys_all, idx + 1), tx_instructions_program_id_index),"@ + sql::gap(41) + "tx_instructions_data"@ + sql::gap(37) + ")"@ + sql::gap(33) + ")"@ + sql::gap(29) + "),"@ + sql::gap(29) + "'; '"@ + sql::gap(25) + "),"@ + sql::gap(25) + "''"@ + sql::gap(21) + ") AS memo"@ + sql::gap(17) + "FROM"@ + sql::gap(-1)) by {
            reveal_strlit("SELECT
                base58Encode(signature) as signature,
                slot,
                slot_idx,
                err,
                memo,
                block_time
             FROM (
                 WITH arrayConcat(tx_account_keys, meta_loaded_addresses_writable, meta_loaded_addresses_readonly) AS account_keys_all
                 SELECT
                     signature,
                     slot,
                     slot_idx,
                     block_time,
                     if(meta_status_ok = 1, NULL, meta_err) AS err,
                     nullIf(
                         arrayStringConcat(
                             arrayMap(x -> x.2,
                                 arrayFilter(
                                     x -> has(memo_program_ids, x.1) AND isValidUTF8(x.2),
                                     arrayZip(
                                         arrayMap(idx -> arrayElement(account_keys_all, idx + 1), tx_instructions_program_id_index),
                                         tx_instructions_data
                                     )
                                 )
                             ),
                             '; '
                         ),
                         ''
                     ) AS memo
                 FROM ");
            reveal_strlit("SELECT");
            reveal_strlit("base58Encode(signature) as signature,");
            reveal_strlit("slot,");
            reveal_strlit("slot_idx,");
            reveal_strlit("err,");
            reveal_strlit("memo,");
            reveal_strlit("block_time");
            reveal_strlit("FROM (");
            reveal_strlit("WITH arrayConcat(tx_account_keys, meta_loaded_addresses_writable, meta_loaded_addresses_readonly) AS account_keys_all");
            reveal_strlit("signature,");
            reveal_strlit("block_time,");
            reveal_strlit("if(meta_status_ok = 1, NULL, meta_err) AS err,");
            reveal_strlit("nullIf(");
            reveal_strlit("arrayStringConcat(");
            reveal_strlit("arrayMap(x -> x.2,");
            reveal_strlit("arrayFilter(");
            reveal_strlit("x -> has(memo_program_ids, x.1) AND isValidUTF8(x.2),");
            reveal_strlit("arrayZip(");
            reveal_strlit("arrayMap(idx -> arrayElement(account_keys_all, idx + 1), tx_instructions_program_id_index),");
            reveal_strlit("tx_instructions_data");
            reveal_strlit(")");
            reveal_strlit("),");
            reveal_strlit("'; '");
            reveal_strlit("''");
            reveal_strlit(") AS memo");
            reveal_strlit("FROM");
        }
        assert("
                 WHERE has(account_keys_all, "@ == sql::gap(17) + "WHERE"@ + sql::gap(-1) + "has(account_keys_all, "@) by {
            reveal_strlit("
                 WHERE has(account_keys_all, ");
            reveal_strlit("WHERE");
            reveal_strlit("has(account_keys_all, ");
        }
        assert(")
             )
             WHERE "@ == ")"@ + sql::gap(13) + ")"@ + sql::gap(13) + "WHERE"@ + sql::gap(-1)) by {
            reveal_strlit(")
             )
             WHERE ");
            reveal_strlit(")");
            reveal_strlit("WHERE");
        }
        assert("
             ORDER BY slot DESC, slot_idx DESC, signature
             LIMIT "@ == sql::gap(13) + "ORDER BY"@ + sql::gap(-1) + "slot DESC, slot_idx DESC, signature"@ + sql::gap(13) + "LIMIT"@ + sql::gap(-1)) by {
            reveal_strlit("
             ORDER BY slot DESC, slot_idx DESC, signature
             LIMIT ");
            reveal_strlit("ORDER BY");
            reveal_strlit("slot DESC, slot_idx DESC, signature");
            reveal_strlit("LIMIT");
        }
        assert("
             "@ == sql::gap(13)) by {
            reveal_strlit("
             ");
        }
        assert(Seq::<char>::empty() + "SELECT
                base58Encode(signature) as signature,
                slot,
                slot_idx,
                err,
                memo,
                block_time
             FROM (
                 WITH arrayConcat(tx_account_keys, meta_loaded_addresses_writable, meta_loaded_addresses_readonly) AS account_keys_all
                 SELECT
                     signature,
                     slot,
                     slot_idx,
                     block_time,
                     if(meta_status_ok = 1, NULL, meta_err) AS err,
                     nullIf(
                         arrayStringConcat(
                             arrayMap(x -> x.2,
                                 arrayFilter(
                                     x -> has(memo_program_ids, x.1) AND isValidUTF8(x.2),
                                     arrayZip(
                                         arrayMap(idx -> arrayElement(account_keys_all, idx + 1), tx_instructions_program_id_index),
                                         tx_instructions_data
                                     )
                                 )
                             ),
                             '; '
                         ),
                         ''
                     ) AS memo
                 FROM "@ == "SELECT
                base58Encode(signature) as signature,
                slot,
                slot_idx,
                err,
                memo,
                block_time
             FROM (
                 WITH arrayConcat(tx_account_keys, meta_loaded_addresses_writable, meta_loaded_addresses_readonly) AS account_keys_all
                 SELECT
                     signature,
                     slot,
                     slot_idx,
                     block_time,
                     if(meta_status_ok = 1, NULL, meta_err) AS err,
                     nullIf(
                         arrayStringConcat(
                             arrayMap(x -> x.2,
                                 arrayFilter(
                                     x -> has(memo_program_ids, x.1) AND isValidUTF8(x.2),
                                     arrayZip(
                                         arrayMap(idx -> arrayElement(account_keys_all, idx + 1), tx_instructions_program_id_index),
                                         tx_instructions_data
                                     )
                                 )
                             ),
                             '; '
                         ),
                         ''
                     ) AS memo
                 FROM "@);
        broadcast use sql::lemma_joined_first;

        sql::lemma_same_text(fallback_query(Seq::empty(), transaction_table, address_literal, where_clause, limit, settings_clause), words);
    }
    assert(words.1 =~= seq![
        "SELECT"@,
        "base58Encode(signature) as signature,"@,
        "slot,"@,
        "slot_idx,"@,
        "err,"@,
        "memo,"@,
        "block_time"@,
        "FROM ("@,
        "WITH arrayConcat(tx_account_keys, meta_loaded_addresses_writable, meta_loaded_addresses_readonly) AS account_keys_all"@,
        "SELECT"@,
        "signature,"@,
        "slot,"@,
        "slot_idx,"@,
        "block_time,"@,
        "if(meta_status_ok = 1, NULL, meta_err) AS err,"@,
        "nullIf("@,
        "arrayStringConcat("@,
        "arrayMap(x -> x.2,"@,
        "arrayFilter("@,
        "x -> has(memo_program_ids, x.1) AND isValidUTF8(x.2),"@,
        "arrayZip("@,
        "arrayMap(idx -> arrayElement(account_keys_all, idx + 1), tx_instructions_program_id_index),"@,
        "tx_instructions_data"@,
        ")"@,
        ")"@,
        "),"@,
        "'; '"@,
        "),"@,
        "''"@,
        ") AS memo"@,
        "FROM"@,
        transaction_table,
        "WHERE"@,
        "has(account_keys_all, "@ + address_literal + ")"@,
        ")"@,
        "WHERE"@,
        where_clause,
        "ORDER BY"@,
        "slot DESC, slot_idx DESC, signature"@,
        "LIMIT"@,
        text::dec(limit as nat),
        settings_clause,
    ]);
}

/// The SQL literal of an address.
pub open spec fn pubkey_text(pubkey: Seq<u8>) -> Seq<char> {
    ("toFixedString(unhex('"@ + text::hex_upper(pubkey) + "'), 32)"@)
}

/// The SQL literal of an address.
pub fn pubkey_literal(pubkey: &[u8; 32]) -> (r: String)
    ensures
        r@ == pubkey_text(pubkey@),
{
    let mut m = "toFixedString(unhex('".to_owned();
    m.append(text::hex_upper_string(pubkey.as_slice()).as_str());
    m.append("'), 32)");
    m
}

/// The query for a page of the history of an address in a table with that many buckets.
pub open spec fn address_page_query(
    table: Seq<char>,
    modulus: u64,
    pubkey: Seq<u8>,
    limit: u64,
    before: Option<SlotBoundary>,
    until: Option<SlotBoundary>,
    raw: bool,
    settings_clause: Seq<char>,
) -> Seq<char> {
    gsfa_query(
        Seq::<char>::empty(),
        table,
        startup::address_bucket(pubkey, modulus),
        pubkey_text(pubkey),
        queries::page_text(before, until, raw),
        limit,
        settings_clause,
    )
}

/// Builds the query for a page of the history of an address, in a table of a shard or in the
/// distributed one.
pub fn build_address_page_query(
    table: &str,
    modulus: u64,
    pubkey: &[u8; 32],
    limit: u64,
    before: Option<SlotBoundary>,
    until: Option<SlotBoundary>,
    settings_clause: &str,
) -> (q: String)
    requires
        modulus > 0,
    ensures
        q@ == address_page_query(
            table@,
            modulus,
            pubkey@,
            limit,
            before,
            until,
            false,
            settings_clause@,
        ),
{
    let (with_clause, where_clause) = build_pagination_clauses(before, until);
    let addr_bucket: u64 = startup::bucket_of_address(pubkey, modulus);
    build_gsfa_signatures_query(
        with_clause.as_str(),
        table,
        addr_bucket,
        pubkey_literal(pubkey).as_str(),
        where_clause.as_str(),
        limit,
        settings_clause,
    )
}

/// The parts of the query for a page of a hot history, the same for all shards.
#[derive(Debug)]
pub struct HotGsfaQuerySpec {
    pub local_table: String,
    pub addr_bucket: u64,
    pub address_literal: String,
    pub with_clause: String,
    pub where_clause: String,
    pub limit: u64,
}

impl HotGsfaQuerySpec {
    /// The query for each shard.
    pub fn to_query(&self, settings_clause: &str) -> (q: String)
        ensures
            q@ == gsfa_query(
                self.with_clause@,
                self.local_table@,
                self.addr_bucket,
                self.address_literal@,
                self.where_clause@,
                self.limit,
                settings_clause@,
            ),
    {
        build_gsfa_signatures_query(
            self.with_clause.as_str(),
            self.local_table.as_str(),
            self.addr_bucket,
            self.address_literal.as_str(),
            self.where_clause.as_str(),
            self.limit,
            settings_clause,
        )
    }
}

/// What goes before a query of all transactions: the memo programs, and what the page needs.
pub open spec fn memo_with() -> Seq<char> {
    ("memo_program_ids AS [CAST(base58Decode('Memo1UhkJRfHyvLMcVucJwxXeuD728EqVDDwQDxFMNo') AS FixedString(32)),CAST(base58Decode('MemoSq4gqABAXKb96qnH8TysNcWxMyWCqXgDLGmfcHr') AS FixedString(32))]"@)
}

/// What the clauses of a page add to a clause of common expressions.
pub open spec fn page_expressions(pagination_with: Seq<char>) -> Seq<char> {
    if text_search::starts_with(pagination_with, "WITH "@) {
        text_search::trim(pagination_with.skip("WITH "@.len() as int))
    } else {
        Seq::<char>::empty()
    }
}

/// The clause of common expressions of a query of all transactions.
pub open spec fn fallback_with(pagination_with: Seq<char>) -> Seq<char> {
    let expressions = page_expressions(pagination_with);
    if expressions.len() == 0 {
        ("WITH "@ + memo_with() + " "@)
    } else {
        ("WITH "@ + memo_with() + ", "@ + expressions + " "@)
    }
}

/// Builds the clause of common expressions of a query of all transactions.
pub fn fallback_with_clause(pagination_with: &str) -> (r: String)
    ensures
        r@ == fallback_with(pagination_with@),
{
    let memo = "memo_program_ids AS [CAST(base58Decode('Memo1UhkJRfHyvLMcVucJwxXeuD728EqVDDwQDxFMNo') AS FixedString(32)),CAST(base58Decode('MemoSq4gqABAXKb96qnH8TysNcWxMyWCqXgDLGmfcHr') AS FixedString(32))]".to_owned();
    let expressions = match text_search::strip_prefix_text(pagination_with, "WITH ") {
        Some(rest) => text_search::trim_text(rest.as_str()),
        None => String::new(),
    };
    if text::text_eq(expressions.as_str(), "") {
        proof {
            reveal_strlit("");
        }
        let mut m = "WITH ".to_owned();
        m.append(memo.as_str());
        m.append(" ");
        m
    } else {
        proof {
            reveal_strlit("");
            if expressions@.len() == 0 {
                assert(expressions@ =~= ""@);
            }
        }
        let mut m = "WITH ".to_owned();
        m.append(memo.as_str());
        m.append(", ");
        m.append(expressions.as_str());
        m.append(" ");
        m
    }
}

/// The query for the newest signatures of an address in the table of all transactions.
pub open spec fn fallback_query(
    with_clause: Seq<char>,
    transaction_table: Seq<char>,
    address_literal: Seq<char>,
    where_clause: Seq<char>,
    limit: u64,
    settings_clause: Seq<char>,
) -> Seq<char> {
    (with_clause + "SELECT
                base58Encode(signature) as signature,
                slot,
                slot_idx,
                err,
                memo,
                block_time
             FROM (
                 WITH arrayConcat(tx_account_keys, meta_loaded_addresses_writable, meta_loaded_addresses_readonly) AS account_keys_all
                 SELECT
                     signature,
                     slot,
                     slot_idx,
                     block_time,
                     if(meta_status_ok = 1, NULL, meta_err) AS err,
                     nullIf(
                         arrayStringConcat(
                             arrayMap(x -> x.2,
                                 arrayFilter(
                                     x -> has(memo_program_ids, x.1) AND isValidUTF8(x.2),
                                     arrayZip(
                                         arrayMap(idx -> arrayElement(account_keys_all, idx + 1), tx_instructions_program_id_index),
                                         tx_instructions_data
                                     )
                                 )
                             ),
                             '; '
                         ),
                         ''
                     ) AS memo
                 FROM "@ + transaction_table + "
                 WHERE has(account_keys_all, "@ + address_literal + ")
             )
             WHERE "@ + where_clause + "
             ORDER BY slot DESC, slot_idx DESC, signature
             LIMIT "@ + text::dec(limit as nat) + "
             "@ + settings_clause)
}

/// Builds the query for the newest signatures of an address in the table of all transactions.
pub fn build_fallback_query(
    transaction_table: &str,
    pubkey: &[u8; 32],
    limit: u64,
    before: Option<SlotBoundary>,
    until: Option<SlotBoundary>,
    settings_clause: &str,
) -> (q: String)
    ensures
        q@ == fallback_query(
            fallback_with(Seq::<char>::empty()),
            transaction_table@,
            pubkey_text(pubkey@),
            queries::page_text(before, until, false),
            limit,
            settings_clause@,
        ),
{
    let (pagination_with, where_text) = build_pagination_clauses(before, until);
    let with_text = fallback_with_clause(pagination_with.as_str());
    let literal = pubkey_literal(pubkey);
    let with_clause = with_text.as_str();
    let where_clause = where_text.as_str();
    let address_literal = literal.as_str();
    let mut m = with_clause.to_owned();
    m.append("SELECT
                base58Encode(signature) as signature,
                slot,
                slot_idx,
                err,
                memo,
                block_time
             FROM (
                 WITH arrayConcat(tx_account_keys, meta_loaded_addresses_writable, meta_loaded_addresses_readonly) AS account_keys_all
                 SELECT
                     signature,
                     slot,
                     slot_idx,
                     block_time,
                     if(meta_status_ok = 1, NULL, meta_err) AS err,
                     nullIf(
                         arrayStringConcat(
                             arrayMap(x -> x.2,
                                 arrayFilter(
                                     x -> has(memo_program_ids, x.1) AND isValidUTF8(x.2),
                                     arrayZip(
                                         arrayMap(idx -> arrayElement(account_keys_all, idx + 1), tx_instructions_program_id_index),
                                         tx_instructions_data
                                     )
                                 )
                             ),
                             '; '
                         ),
                         ''
                     ) AS memo
                 FROM ");
    m.append(transaction_table);
    m.append("
                 WHERE has(account_keys_all, ");
    m.append(address_literal);
    m.append(")
             )
             WHERE ");
    m.append(where_clause);
    m.append("
             ORDER BY slot DESC, slot_idx DESC, signature
             LIMIT ");
    m.append(text::dec_string(limit as u64).as_str());
    m.append("
             ");
    m.append(settings_clause);
    m
}

/// A row of a history as the database returns it.
#[derive(Debug)]
pub struct GsfaSignatureRow {
    pub signature: String,
    pub slot: u64,
    pub slot_idx: u32,
    pub err: Option<String>,
    pub memo: Option<String>,
    pub block_time: Option<i64>,
}

/// A row of a history with its error and its memo as they are reported. A row without an error has
/// none to report.
pub fn map_gsfa_signature_row<E>(
    row: GsfaSignatureRow,
    parsed_err: Option<E>,
    formatted_memo: Option<String>,
) -> (r: SignatureRecord<E>)
    ensures
        r == (SignatureRecord {
            signature: row.signature,
            slot: row.slot,
            slot_idx: row.slot_idx,
            err: if row.err is Some {
                parsed_err
            } else {
                None
            },
            memo: formatted_memo,
            block_time: row.block_time,
        }),
{
    let err = if row.err.is_some() {
        parsed_err
    } else {
        None
    };
    SignatureRecord {
        signature: row.signature,
        slot: row.slot,
        slot_idx: row.slot_idx,
        err,
        memo: formatted_memo,
        block_time: row.block_time,
    }
}

/// Whether a record comes before another one: the newest first, then by signature.
pub open spec fn record_before<E>(a: SignatureRecord<E>, b: SignatureRecord<E>) -> bool {
    if a.slot != b.slot {
        a.slot > b.slot
    } else if a.slot_idx != b.slot_idx {
        a.slot_idx > b.slot_idx
    } else {
        text_search::text_before(a.signature@, b.signature@)
    }
}

fn is_record_before<E>(a: &SignatureRecord<E>, b: &SignatureRecord<E>) -> (r: bool)
    ensures
        r == record_before(*a, *b),
{
    if a.slot != b.slot {
        a.slot > b.slot
    } else if a.slot_idx != b.slot_idx {
        a.slot_idx > b.slot_idx
    } else {
        text_search::is_text_before(a.signature.as_str(), b.signature.as_str())
    }
}

/// The order of two records. They are equal where slot, place and signature are.
pub fn compare_signature_records<E>(a: &SignatureRecord<E>, b: &SignatureRecord<E>) -> (r: Ordering)
    ensures
        r == Ordering::Less <==> record_before(*a, *b),
        r == Ordering::Greater <==> record_before(*b, *a),
        r == Ordering::Equal <==> (a.slot == b.slot && a.slot_idx == b.slot_idx && a.signature@
            == b.signature@),
{
    if is_record_before(a, b) {
        proof {
            lemma_record_asymmetric(*a, *b);
        }
        Ordering::Less
    } else if is_record_before(b, a) {
        proof {
            lemma_record_asymmetric(*b, *a);
        }
        Ordering::Greater
    } else {
        proof {
            text_search::lemma_text_before_total(a.signature@, b.signature@);
        }
        Ordering::Equal
    }
}

proof fn lemma_record_asymmetric<E>(a: SignatureRecord<E>, b: SignatureRecord<E>)
    requires
        record_before(a, b),
    ensures
        !record_before(b, a),
        !(a.slot == b.slot && a.slot_idx == b.slot_idx && a.signature@ == b.signature@),
{
    if a.slot == b.slot && a.slot_idx == b.slot_idx {
        text_search::lemma_text_before_asymmetric(a.signature@, b.signature@);
    }
}

proof fn lemma_record_transitive<E>(
    a: SignatureRecord<E>,
    b: SignatureRecord<E>,
    c: SignatureRecord<E>,
)
    requires
        !record_before(a, b),
        !record_before(b, c),
    ensures
        !record_before(a, c),
{
    if a.slot == b.slot && b.slot == c.slot && a.slot_idx == b.slot_idx && b.slot_idx
        == c.slot_idx {
        text_search::lemma_text_before_transitive(a.signature@, b.signature@, c.signature@);
    }
}

/// Records in order.
pub open spec fn records_sorted<E>(s: Seq<SignatureRecord<E>>) -> bool {
    forall|i: int, j: int| 0 <= i < j < s.len() ==> !record_before(#[trigger] s[j], #[trigger] s[i])
}

/// Records in the opposite order.
spec fn records_reversed<E>(s: Seq<SignatureRecord<E>>) -> bool {
    forall|i: int, j: int| 0 <= i < j < s.len() ==> !record_before(#[trigger] s[i], #[trigger] s[j])
}

/// The same records in order.
pub open spec fn in_order_of<E>(
    sorted: Seq<SignatureRecord<E>>,
    records: Seq<SignatureRecord<E>>,
) -> bool {
    &&& records_sorted(sorted)
    &&& sorted.to_multiset() == records.to_multiset()
}

/// Whether a signature is among those of some records.
pub open spec fn has_signature<E>(s: Seq<SignatureRecord<E>>, signature: Seq<char>) -> bool {
    exists|i: int| 0 <= i < s.len() && (#[trigger] s[i]).signature@ == signature
}

/// The first record of each signature.
pub open spec fn first_of_signatures<E>(s: Seq<SignatureRecord<E>>) -> Seq<SignatureRecord<E>>
    decreases s.len(),
{
    if s.len() == 0 {
        Seq::empty()
    } else {
        let rest = first_of_signatures(s.drop_last());
        if has_signature(rest, s.last().signature@) {
            rest
        } else {
            rest.push(s.last())
        }
    }
}

/// The length of a page: its limit, and never less than one record.
pub open spec fn page_length(limit: u64) -> int {
    if limit == 0 {
        1
    } else {
        limit as int
    }
}

/// The first records of distinct signatures, as many as a page holds.
pub open spec fn first_page<E>(sorted: Seq<SignatureRecord<E>>, limit: u64) -> Seq<
    SignatureRecord<E>,
> {
    let first = first_of_signatures(sorted);
    if first.len() <= page_length(limit) {
        first
    } else {
        first.take(page_length(limit))
    }
}

/// Whether records are the page that some records make: the newest of each signature, in order.
/// Which of two records with the same slot, place and signature is taken is left open.
pub open spec fn is_page_of<E>(
    page: Seq<SignatureRecord<E>>,
    records: Seq<SignatureRecord<E>>,
    limit: u64,
) -> bool {
    exists|sorted: Seq<SignatureRecord<E>>| #[trigger]
        in_order_of(sorted, records) && page == first_page(sorted, limit)
}

proof fn lemma_insert_to_multiset<T>(s: Seq<T>, i: int, x: T)
    requires
        0 <= i <= s.len(),
    ensures
        s.insert(i, x).to_multiset() == s.to_multiset().insert(x),
{
    let t = s.insert(i, x);
    t.to_multiset_ensures();
    assert(t.remove(i) =~= s);
    assert(t[i] == x);
    assert(t.contains(x));
    assert(t.to_multiset().remove(x).insert(x) =~= t.to_multiset());
}

/// Puts a record into records in opposite order.
fn insert_record<E>(list: &mut Vec<SignatureRecord<E>>, record: SignatureRecord<E>)
    requires
        records_reversed(old(list)@),
    ensures
        records_reversed(final(list)@),
        final(list)@.to_multiset() == old(list)@.to_multiset().insert(record),
{
    let mut low: usize = 0;
    let mut high: usize = list.len();
    while low < high
        invariant
            low <= high <= list@.len(),
            list@ == old(list)@,
            records_reversed(list@),
            forall|k: int| 0 <= k < low ==> record_before(record, #[trigger] list@[k]),
            forall|k: int| high <= k < list@.len() ==> !record_before(record, #[trigger] list@[k]),
        decreases high - low,
    {
        let mid: usize = low + (high - low) / 2;
        if is_record_before(&record, &list[mid]) {
            proof {
                assert forall|k: int| 0 <= k < mid + 1 implies record_before(
                    record,
                    #[trigger] list@[k],
                ) by {
                    if k < mid && !record_before(record, list@[k]) {
                        lemma_record_transitive(record, list@[k], list@[mid as int]);
                    }
                }
            }
            low = mid + 1;
        } else {
            proof {
                assert forall|k: int| mid <= k < list@.len() implies !record_before(
                    record,
                    #[trigger] list@[k],
                ) by {
                    if k > mid {
                        lemma_record_transitive(record, list@[mid as int], list@[k]);
                    }
                }
            }
            high = mid;
        }
    }
    let ghost before = list@;
    list.insert(low, record);
    proof {
        lemma_insert_to_multiset(before, low as int, record);
        assert forall|i: int, j: int| 0 <= i < j < list@.len() implies !record_before(
            #[trigger] list@[i],
            #[trigger] list@[j],
        ) by {
            let from_i = if i > low {
                i - 1
            } else {
                i
            };
            let from_j = if j > low {
                j - 1
            } else {
                j
            };
            if i != low && j != low {
                assert(list@[i] == before[from_i]);
                assert(list@[j] == before[from_j]);
            } else if j == low {
                assert(list@[i] == before[i]);
                lemma_record_asymmetric(record, before[i]);
            } else {
                assert(list@[j] == before[j - 1]);
            }
        }
    }
}

fn knows_signature<E>(records: &Vec<SignatureRecord<E>>, signature: &str) -> (r: bool)
    ensures
        r == has_signature(records@, signature@),
{
    let mut i: usize = 0;
    while i < records.len()
        invariant
            i <= records@.len(),
            forall|k: int| 0 <= k < i ==> (#[trigger] records@[k]).signature@ != signature@,
        decreases records@.len() - i,
    {
        if text::text_eq(records[i].signature.as_str(), signature) {
            assert(records@[i as int].signature@ == signature@);
            return true;
        }
        i += 1;
    }
    false
}

proof fn lemma_first_of_signatures_prefix<E>(s: Seq<SignatureRecord<E>>, n: int)
    requires
        0 <= n <= s.len(),
    ensures
        first_of_signatures(s.take(n)).len() <= first_of_signatures(s).len(),
        first_of_signatures(s).take(first_of_signatures(s.take(n)).len() as int)
            == first_of_signatures(s.take(n)),
    decreases s.len() - n,
{
    if n == s.len() {
        assert(s.take(n) =~= s);
        assert(first_of_signatures(s).take(first_of_signatures(s).len() as int)
            =~= first_of_signatures(s));
    } else {
        lemma_first_of_signatures_prefix(s, n + 1);
        assert(s.take(n + 1).drop_last() =~= s.take(n));
        let short = first_of_signatures(s.take(n));
        let longer = first_of_signatures(s.take(n + 1));
        assert(longer.take(short.len() as int) =~= short);
        assert(first_of_signatures(s).take(short.len() as int) =~= first_of_signatures(s).take(
            longer.len() as int,
        ).take(short.len() as int));
    }
}

/// Makes one page of the records of all shards: the newest of each signature, in order.
pub fn merge_hot_signature_records<E>(records: Vec<SignatureRecord<E>>, limit: u64) -> (r: Vec<
    SignatureRecord<E>,
>)
    ensures
        is_page_of(r@, records@, limit),
{
    let mut pending = records;
    let mut list: Vec<SignatureRecord<E>> = Vec::new();
    proof {
        list@.to_multiset_ensures();
        assert(list@.to_multiset().add(pending@.to_multiset()) =~= records@.to_multiset()) by {
            assert(list@.to_multiset().len() == 0);
            assert(list@.to_multiset() =~= vstd::multiset::Multiset::empty());
        }
    }
    while pending.len() > 0
        invariant
            records_reversed(list@),
            list@.to_multiset().add(pending@.to_multiset()) == records@.to_multiset(),
        decreases pending@.len(),
    {
        let ghost all = pending@;
        let ghost before = list@;
        if let Some(record) = pending.pop() {
            insert_record(&mut list, record);
            proof {
                assert(all =~= pending@.push(record));
                pending@.to_multiset_ensures();
                assert(all.to_multiset() == pending@.to_multiset().insert(record));
                assert(list@.to_multiset().add(pending@.to_multiset()) =~= before.to_multiset().add(
                    all.to_multiset(),
                ));
            }
        }
    }
    let ghost sorted = list@.reverse();
    proof {
        pending@.to_multiset_ensures();
        assert(pending@.to_multiset().len() == 0);
        assert(list@.to_multiset() =~= records@.to_multiset());
        list@.lemma_reverse_to_multiset();
        assert(records_sorted(sorted));
        assert(in_order_of(sorted, records@));
    }
    let mut merged: Vec<SignatureRecord<E>> = Vec::new();
    let ghost mut i: int = 0;
    proof {
        assert(sorted.take(0) =~= Seq::empty());
    }
    while list.len() > 0
        invariant
            0 <= i <= sorted.len(),
            list@.len() + i == sorted.len(),
            forall|k: int|
                0 <= k < list@.len() ==> #[trigger] list@[k] == sorted[sorted.len() - 1 - k],
            merged@ == first_of_signatures(sorted.take(i)),
            merged@.len() == 0 || merged@.len() < limit,
            in_order_of(sorted, records@),
        decreases list@.len(),
    {
        if let Some(record) = list.pop() {
            proof {
                assert(record == sorted[i]);
                assert(sorted.take(i + 1).drop_last() =~= sorted.take(i));
                assert(sorted.take(i + 1).last() == record);
                i = i + 1;
            }
            if !knows_signature(&merged, record.signature.as_str()) {
                merged.push(record);
                if merged.len() as u64 >= limit {
                    proof {
                        lemma_first_of_signatures_prefix(sorted, i);
                        assert(merged@.len() == page_length(limit));
                        assert(first_of_signatures(sorted).take(merged@.len() as int) == merged@);
                        if first_of_signatures(sorted).len() == merged@.len() {
                            assert(first_of_signatures(sorted).take(merged@.len() as int)
                                =~= first_of_signatures(sorted));
                        }
                        assert(merged@ == first_page(sorted, limit));
                    }
                    return merged;
                }
            }
        }
    }
    proof {
        assert(sorted.take(i) =~= sorted);
        assert(merged@ == first_page(sorted, limit));
    }
    merged
}

proof fn lemma_first_of_signatures<E>(s: Seq<SignatureRecord<E>>) -> (places: Seq<int>)
    requires
        records_sorted(s),
    ensures
        places.len() == first_of_signatures(s).len(),
        forall|k: int|
            0 <= k < places.len() ==> 0 <= #[trigger] places[k] < s.len() && s[places[k]]
                == first_of_signatures(s)[k],
        forall|k: int, m: int|
            0 <= k < m < places.len() ==> #[trigger] places[k] < #[trigger] places[m],
        forall|k: int, m: int|
            0 <= k < m < places.len() ==> (#[trigger] first_of_signatures(s)[k]).signature@ != (
            #[trigger] first_of_signatures(s)[m]).signature@,
        forall|i: int|
            0 <= i < s.len() ==> has_signature(
                first_of_signatures(s),
                (#[trigger] s[i]).signature@,
            ),
    decreases s.len(),
{
    if s.len() == 0 {
        Seq::empty()
    } else {
        let rest = first_of_signatures(s.drop_last());
        let places = lemma_first_of_signatures(s.drop_last());
        assert forall|k: int| 0 <= k < places.len() implies 0 <= #[trigger] places[k] < s.len()
            && s[places[k]] == rest[k] by {
            assert(s.drop_last()[places[k]] == rest[k]);
        }
        assert forall|i: int| 0 <= i < s.len() implies has_signature(
            first_of_signatures(s),
            (#[trigger] s[i]).signature@,
        ) by {
            if i < s.len() - 1 {
                assert(s.drop_last()[i] == s[i]);
                let k = choose|k: int|
                    0 <= k < rest.len() && (#[trigger] rest[k]).signature@ == s[i].signature@;
                assert(first_of_signatures(s)[k] == rest[k]);
            } else if !has_signature(rest, s.last().signature@) {
                assert(first_of_signatures(s)[rest.len() as int] == s[i]);
            }
        }
        if has_signature(rest, s.last().signature@) {
            places
        } else {
            let more = places.push(s.len() - 1);
            assert forall|k: int, m: int| 0 <= k < m < more.len() implies (
            #[trigger] first_of_signatures(s)[k]).signature@ != (
            #[trigger] first_of_signatures(s)[m]).signature@ by {
                assert(first_of_signatures(s)[k] == rest[k]);
                if m < rest.len() {
                    assert(first_of_signatures(s)[m] == rest[m]);
                }
            }
            more
        }
    }
}

/// A page is in order, holds each signature once and nothing but the given records, is no longer
/// than its limit, and where it is shorter every signature is on it.
pub proof fn law_page_is_sorted_and_distinct<E>(
    page: Seq<SignatureRecord<E>>,
    records: Seq<SignatureRecord<E>>,
    limit: u64,
)
    requires
        is_page_of(page, records, limit),
    ensures
        records_sorted(page),
        page.len() <= page_length(limit),
        forall|k: int, m: int|
            0 <= k < m < page.len() ==> (#[trigger] page[k]).signature@ != (
            #[trigger] page[m]).signature@,
        forall|k: int| 0 <= k < page.len() ==> records.contains(#[trigger] page[k]),
        page.len() < page_length(limit) ==> forall|i: int|
            0 <= i < records.len() ==> has_signature(page, (#[trigger] records[i]).signature@),
{
    let sorted = choose|sorted: Seq<SignatureRecord<E>>| #[trigger]
        in_order_of(sorted, records) && page == first_page(sorted, limit);
    let first = first_of_signatures(sorted);
    let places = lemma_first_of_signatures(sorted);
    sorted.to_multiset_ensures();
    records.to_multiset_ensures();
    assert forall|k: int| 0 <= k < page.len() implies page[k] == first[k] && records.contains(
        #[trigger] page[k],
    ) by {
        assert(sorted[places[k]] == first[k]);
        assert(sorted.contains(page[k]));
        assert(sorted.to_multiset().count(page[k]) > 0);
    }
    assert forall|i: int, j: int| 0 <= i < j < page.len() implies !record_before(
        #[trigger] page[j],
        #[trigger] page[i],
    ) by {
        assert(sorted[places[i]] == page[i]);
        assert(sorted[places[j]] == page[j]);
        assert(places[i] < places[j]);
    }
    if page.len() < page_length(limit) {
        assert(page == first);
        assert forall|i: int| 0 <= i < records.len() implies has_signature(
            page,
            (#[trigger] records[i]).signature@,
        ) by {
            assert(records.contains(records[i]));
            assert(records.to_multiset().count(records[i]) > 0);
            assert(sorted.contains(records[i]));
            let j = choose|j: int| 0 <= j < sorted.len() && sorted[j] == records[i];
            assert(has_signature(first, sorted[j].signature@));
        }
    }
}

/// Why a shard gave no records.
#[derive(Debug)]
pub enum ShardFailure {
    /// Its query failed.
    Query { host: String, port: u16, error: ProcessingError },
    /// The task that was to ask it broke off.
    Task { reason: String },
}

/// The records of all replies up to the first failure.
pub open spec fn replied_records<E>(
    replies: Seq<Result<Vec<SignatureRecord<E>>, ShardFailure>>,
) -> Seq<SignatureRecord<E>>
    decreases replies.len(),
{
    if replies.len() == 0 {
        Seq::empty()
    } else {
        replied_records(replies.drop_last()) + match replies.last() {
            Ok(records) => records@,
            Err(_) => Seq::empty(),
        }
    }
}

/// Whether a reply is the first that failed.
pub open spec fn is_first_failure<E>(
    replies: Seq<Result<Vec<SignatureRecord<E>>, ShardFailure>>,
    i: int,
) -> bool {
    &&& 0 <= i < replies.len()
    &&& replies[i] is Err
    &&& forall|k: int| 0 <= k < i ==> (#[trigger] replies[k]) is Ok
}

/// What is said of a shard that failed.
pub open spec fn hot_failure_text(tcp: bool, failure: ShardFailure) -> Seq<char> {
    let way = if tcp {
        "Shard-local GSFA hot TCP"@
    } else {
        "Shard-local GSFA hot HTTP"@
    };
    match failure {
        ShardFailure::Query { host, port, error } => way + " query failed on "@ + host@ + ":"@
            + text::dec(port as nat) + ": "@ + error.context(),
        ShardFailure::Task { reason } => way + " task failed: "@ + reason@,
    }
}

fn hot_failure(tcp: bool, failure: &ShardFailure) -> (r: ProcessingError)
    ensures
        r is Database,
        r.context() == hot_failure_text(tcp, *failure),
{
    let mut m = if tcp {
        "Shard-local GSFA hot TCP".to_owned()
    } else {
        "Shard-local GSFA hot HTTP".to_owned()
    };
    match failure {
        ShardFailure::Query { host, port, error } => {
            m.append(" query failed on ");
            m.append(host.as_str());
            m.append(":");
            m.append(text::dec_string(*port as u64).as_str());
            m.append(": ");
            m.append(error.message().as_str());
        },
        ShardFailure::Task { reason } => {
            m.append(" task failed: ");
            m.append(reason.as_str());
        },
    }
    ProcessingError::database_msg(m)
}

/// Makes one page of the replies of all shards, in the order in which they came. The first failure
/// is that of the page.
pub fn collect_hot_records<E>(
    replies: Vec<Result<Vec<SignatureRecord<E>>, ShardFailure>>,
    tcp: bool,
    limit: u64,
) -> (r: Result<Vec<SignatureRecord<E>>, ProcessingError>)
    ensures
        match r {
            Ok(page) => {
                &&& forall|i: int| 0 <= i < replies@.len() ==> (#[trigger] replies@[i]) is Ok
                &&& is_page_of(page@, replied_records(replies@), limit)
            },
            Err(e) => exists|i: int|
                {
                    &&& #[trigger] is_first_failure(replies@, i)
                    &&& e is Database
                    &&& e.context() == hot_failure_text(tcp, replies@[i]->Err_0)
                },
        },
{
    let mut failed: usize = 0;
    while failed < replies.len()
        invariant
            failed <= replies@.len(),
            forall|k: int| 0 <= k < failed ==> (#[trigger] replies@[k]) is Ok,
        decreases replies@.len() - failed,
    {
        if let Err(failure) = &replies[failed] {
            let e = hot_failure(tcp, failure);
            assert(is_first_failure(replies@, failed as int));
            return Err(e);
        }
        failed += 1;
    }
    let ghost all = replies@;
    let mut pending = replies;
    let mut records: Vec<SignatureRecord<E>> = Vec::new();
    proof {
        assert(all.take(0) =~= Seq::empty());
    }
    let ghost mut i: int = 0;
    while pending.len() > 0
        invariant
            0 <= i <= all.len(),
            pending@ == all.skip(i),
            records@ == replied_records(all.take(i)),
        decreases pending@.len(),
    {
        let reply = pending.remove(0);
        proof {
            assert(reply == all[i]);
            assert(all.take(i + 1).drop_last() =~= all.take(i));
            assert(all.take(i + 1).last() == reply);
            i = i + 1;
            assert(pending@ =~= all.skip(i));
        }
        if let Ok(mut shard_records) = reply {
            records.append(&mut shard_records);
        }
    }
    proof {
        assert(all.take(i) =~= all);
    }
    Ok(merge_hot_signature_records(records, limit))
}

/// When the table of all transactions is asked too.
#[derive(Clone, Copy, Debug, PartialEq, Eq, Structural)]
pub enum GsfaFallbackMode {
    Disabled,
    EmptyOnly,
    Incomplete,
}

/// Whether the table of all transactions is asked too.
pub fn needs_gsfa_fallback(mode: GsfaFallbackMode, found: usize, limit: u64) -> (r: bool)
    ensures
        r == match mode {
            GsfaFallbackMode::Disabled => false,
            GsfaFallbackMode::EmptyOnly => found == 0,
            GsfaFallbackMode::Incomplete => found < limit,
        },
{
    match mode {
        GsfaFallbackMode::Disabled => false,
        GsfaFallbackMode::EmptyOnly => found == 0,
        GsfaFallbackMode::Incomplete => (found as u64) < limit,
    }
}

/// What is returned once the table of all transactions was asked: its records where it has any.
pub fn choose_after_fallback<E>(
    records: Vec<SignatureRecord<E>>,
    fallback_records: Vec<SignatureRecord<E>>,
) -> (r: Vec<SignatureRecord<E>>)
    ensures
        r == (if fallback_records@.len() > 0 {
            fallback_records
        } else {
            records
        }),
{
    if fallback_records.len() > 0 {
        fallback_records
    } else {
        records
    }
}

/// A way to read the history of an address.
#[derive(Clone, Copy, Debug, PartialEq, Eq, Structural)]
pub enum GsfaRoute {
    /// All shards, natively.
    HotTcp,
    /// All shards.
    HotHttp,
    /// The shard of the address, natively.
    ShardTcp,
    /// The shard of the address.
    ShardHttp,
    /// The distributed table.
    Distributed,
}

/// What is asked for a page of the history of an address.
#[derive(Debug)]
pub enum GsfaRequest {
    /// This query, on all shards.
    AllShards(String),
    /// This query, on the shard of this index.
    Shard(usize, String),
    /// This query, on the distributed table.
    Distributed(String),
}

/// What follows a failure.
#[derive(Clone, Copy, Debug, PartialEq, Eq, Structural)]
pub enum AfterFailure {
    /// Another way is tried.
    Try(GsfaRoute),
    /// The failure is reported.
    Report,
}

impl GsfaRoute {
    /// What follows a failure, given whether it may be gone the next time.
    pub open spec fn spec_after_failure(self, transient: bool) -> AfterFailure {
        match self {
            GsfaRoute::HotTcp if transient => AfterFailure::Try(GsfaRoute::HotHttp),
            GsfaRoute::ShardTcp if transient => AfterFailure::Try(GsfaRoute::ShardHttp),
            GsfaRoute::ShardHttp => AfterFailure::Try(GsfaRoute::Distributed),
            _ => AfterFailure::Report,
        }
    }

    /// What follows a failure, given whether it may be gone the next time.
    pub fn after_failure(self, transient: bool) -> (r: AfterFailure)
        ensures
            r == self.spec_after_failure(transient),
    {
        match self {
            GsfaRoute::HotTcp if transient => AfterFailure::Try(GsfaRoute::HotHttp),
            GsfaRoute::ShardTcp if transient => AfterFailure::Try(GsfaRoute::ShardHttp),
            GsfaRoute::ShardHttp => AfterFailure::Try(GsfaRoute::Distributed),
            _ => AfterFailure::Report,
        }
    }
}

/// How many ways may still be tried after this one.
pub open spec fn routes_left(route: GsfaRoute) -> nat {
    match route {
        GsfaRoute::ShardTcp => 2,
        GsfaRoute::HotTcp | GsfaRoute::ShardHttp => 1,
        GsfaRoute::HotHttp | GsfaRoute::Distributed => 0,
    }
}

/// Each further way leaves fewer to try, a failure that will not be gone is reported at once on a
/// native way, and a hot history is never looked for on a single shard.
pub proof fn law_gsfa_routes_end(route: GsfaRoute, transient: bool)
    ensures
        route.spec_after_failure(transient) matches AfterFailure::Try(next) ==> routes_left(next)
            < routes_left(route),
        (route is HotTcp || route is ShardTcp) && !transient ==> route.spec_after_failure(transient)
            is Report,
        route is HotTcp || route is HotHttp ==> !(route.spec_after_failure(transient)
            matches AfterFailure::Try(next) && (next is ShardTcp || next is ShardHttp)),
{
}

/// The first way to read the history of an address.
pub open spec fn first_route(c: ClickHouseClient, pubkey: Seq<u8>) -> GsfaRoute {
    if c.is_hot(pubkey) {
        if c.shard_topology is None {
            GsfaRoute::Distributed
        } else if startup::direct(c) && c.routing_policy.transport is Tcp {
            GsfaRoute::HotTcp
        } else {
            GsfaRoute::HotHttp
        }
    } else if c.gsfa_router is None {
        GsfaRoute::Distributed
    } else if c.routing_policy.transport is Tcp {
        GsfaRoute::ShardTcp
    } else {
        GsfaRoute::ShardHttp
    }
}

/// Reads an address.
pub fn parse_address(address: &str) -> (r: Result<[u8; 32], ProcessingError>)
    ensures
        match hashing::parsed_pubkey(address@) {
            Some(bytes) => r matches Ok(key) && key@ == bytes,
            None => r matches Err(e) && e is Deserialization && e.context() == "Invalid address"@,
        },
{
    address_or_error(hashing::parse_pubkey(address))
}

/// The address that was read, or what is said where there is none.
pub fn address_or_error(parsed: Option<[u8; 32]>) -> (r: Result<[u8; 32], ProcessingError>)
    ensures
        match parsed {
            Some(key) => r == Ok::<[u8; 32], ProcessingError>(key),
            None => r matches Err(e) && e is Deserialization && e.context() == "Invalid address"@,
        },
{
    match parsed {
        Some(key) => Ok(key),
        None => Err(ProcessingError::deserialization_msg("Invalid address".to_owned())),
    }
}

impl ClickHouseClient {
    /// The first way to read the history of an address.
    pub fn first_gsfa_route(&self, pubkey: &[u8; 32]) -> (r: GsfaRoute)
        ensures
            r == first_route(*self, pubkey@),
    {
        if self.should_use_gsfa_hot_fanout(pubkey) {
            if self.scope_shard_direct() && self.transport_tcp() {
                return GsfaRoute::HotTcp;
            }
            return GsfaRoute::HotHttp;
        }
        if self.should_use_gsfa_shard_routing(pubkey) && self.gsfa_router.is_some() {
            if self.transport_tcp() {
                return GsfaRoute::ShardTcp;
            }
            if self.transport_http() {
                return GsfaRoute::ShardHttp;
            }
        }
        GsfaRoute::Distributed
    }

    /// The query for the distributed table.
    pub fn distributed_gsfa_query(
        &self,
        pubkey: &[u8; 32],
        limit: u64,
        before: Option<SlotBoundary>,
        until: Option<SlotBoundary>,
        settings_clause: &str,
    ) -> (q: String)
        requires
            self.wf(),
        ensures
            q@ == address_page_query(
                if self.is_hot(pubkey@) {
                    self.gsfa_hot_table@
                } else {
                    self.gsfa_table@
                },
                if self.is_hot(pubkey@) {
                    self.bucket_moduli.gsfa_hot
                } else {
                    self.bucket_moduli.gsfa
                },
                pubkey@,
                limit,
                before,
                until,
                false,
                settings_clause@,
            ),
    {
        build_address_page_query(
            self.gsfa_table_for_address(pubkey),
            self.gsfa_bucket_modulus_for_address(pubkey),
            pubkey,
            limit,
            before,
            until,
            settings_clause,
        )
    }

    /// The parts of the query for all shards.
    pub fn hot_gsfa_query_spec(
        &self,
        pubkey: &[u8; 32],
        limit: u64,
        before: Option<SlotBoundary>,
        until: Option<SlotBoundary>,
    ) -> (r: HotGsfaQuerySpec)
        requires
            self.wf(),
        ensures
            r.local_table@ == self.gsfa_hot_local_table@,
            r.addr_bucket == startup::address_bucket(pubkey@, self.bucket_moduli.gsfa_hot),
            r.address_literal@ == pubkey_text(pubkey@),
            r.with_clause@ == Seq::<char>::empty(),
            r.where_clause@ == queries::page_text(before, until, true),
            r.limit == limit,
    {
        let (with_clause, where_clause) = build_hot_position_pagination_clauses(before, until);
        HotGsfaQuerySpec {
            local_table: self.gsfa_hot_local_table.clone(),
            addr_bucket: startup::bucket_of_address(pubkey, self.bucket_moduli.gsfa_hot),
            address_literal: pubkey_literal(pubkey),
            with_clause,
            where_clause,
            limit,
        }
    }

    /// What to ask on a way to read the history of an address. Hot histories are read on all
    /// shards, with the buckets of the hot table.
    pub fn gsfa_request(
        &self,
        route: GsfaRoute,
        pubkey: &[u8; 32],
        limit: u64,
        before: Option<SlotBoundary>,
        until: Option<SlotBoundary>,
        settings_clause: &str,
    ) -> (r: Result<GsfaRequest, ProcessingError>)
        requires
            self.wf(),
            route is ShardTcp || route is ShardHttp ==> self.gsfa_router is Some
                && self.shard_topology is Some,
        ensures
            match route {
                GsfaRoute::HotTcp | GsfaRoute::HotHttp => if self.shard_topology is Some {
                    r matches Ok(GsfaRequest::AllShards(q)) && q@ == address_page_query(
                        self.gsfa_hot_local_table@,
                        self.bucket_moduli.gsfa_hot,
                        pubkey@,
                        limit,
                        before,
                        until,
                        true,
                        settings_clause@,
                    )
                } else {
                    r matches Err(e) && e is Database && e.context()
                        == "GSFA hot routing requires shard topology discovery and validated shard-local hot tables"@
                },
                GsfaRoute::ShardTcp | GsfaRoute::ShardHttp => {
                    &&& r matches Ok(GsfaRequest::Shard(shard, q))
                    &&& sharding::is_weighted_index(
                        self.shard_topology->0.weights@,
                        self.shard_topology->0.total_weight,
                        hashing::cityhash(pubkey@),
                        shard as int,
                    )
                    &&& q@ == address_page_query(
                        self.gsfa_router->0.local_table@,
                        self.bucket_moduli.gsfa,
                        pubkey@,
                        limit,
                        before,
                        until,
                        false,
                        settings_clause@,
                    )
                },
                GsfaRoute::Distributed => r matches Ok(GsfaRequest::Distributed(q)) && q@
                    == address_page_query(
                    if self.is_hot(pubkey@) {
                        self.gsfa_hot_table@
                    } else {
                        self.gsfa_table@
                    },
                    if self.is_hot(pubkey@) {
                        self.bucket_moduli.gsfa_hot
                    } else {
                        self.bucket_moduli.gsfa
                    },
                    pubkey@,
                    limit,
                    before,
                    until,
                    false,
                    settings_clause@,
                ),
            },
    {
        match route {
            GsfaRoute::HotTcp | GsfaRoute::HotHttp => {
                if let Err(e) = self.hot_shard_topology() {
                    return Err(e);
                }
                let spec = self.hot_gsfa_query_spec(pubkey, limit, before, until);
                return Ok(GsfaRequest::AllShards(spec.to_query(settings_clause)));
            },
            GsfaRoute::ShardTcp | GsfaRoute::ShardHttp => {
                if let (Some(topology), Some(router)) = (&self.shard_topology, &self.gsfa_router) {
                    let hash: u64 = hashing::city_hash(pubkey.as_slice());
                    let shard: usize = topology.shard_index_for_hash(hash);
                    let sql = router.shard_gsfa_query(
                        self.bucket_moduli.gsfa,
                        pubkey,
                        limit,
                        before,
                        until,
                        settings_clause,
                    );
                    return Ok(GsfaRequest::Shard(shard, sql));
                }
            },
            GsfaRoute::Distributed => (),
        }
        Ok(
            GsfaRequest::Distributed(
                self.distributed_gsfa_query(pubkey, limit, before, until, settings_clause),
            ),
        )
    }

    /// The query for the table of all transactions.
    pub fn fallback_gsfa_query(
        &self,
        pubkey: &[u8; 32],
        limit: u64,
        before: Option<SlotBoundary>,
        until: Option<SlotBoundary>,
        settings_clause: &str,
    ) -> (q: String)
        ensures
            q@ == fallback_query(
                fallback_with(Seq::<char>::empty()),
                self.transaction_table@,
                pubkey_text(pubkey@),
                queries::page_text(before, until, false),
                limit,
                settings_clause@,
            ),
    {
        build_fallback_query(
            self.transaction_table.as_str(),
            pubkey,
            limit,
            before,
            until,
            settings_clause,
        )
    }
}

impl client::GsfaShardRouter {
    /// The shard that holds the history of an address.
    pub fn shard_for_pubkey<'a>(&self, topology: &'a ShardTopology, pubkey: &[u8; 32]) -> (r:
        &'a ShardTarget)
        requires
            topology.wf(),
        ensures
            exists|i: int|
                {
                    &&& #[trigger] sharding::is_weighted_index(
                        topology.weights@,
                        topology.total_weight,
                        hashing::cityhash(pubkey@),
                        i,
                    )
                    &&& *r == topology.shards@[i]
                },
    {
        topology.shard_for_hash(hashing::city_hash(pubkey.as_slice()))
    }

    /// The query for the shard that holds the history of an address.
    pub fn shard_gsfa_query(
        &self,
        modulus: u64,
        pubkey: &[u8; 32],
        limit: u64,
        before: Option<SlotBoundary>,
        until: Option<SlotBoundary>,
        settings_clause: &str,
    ) -> (q: String)
        requires
            modulus > 0,
        ensures
            q@ == address_page_query(
                self.local_table@,
                modulus,
                pubkey@,
                limit,
                before,
                until,
                false,
                settings_clause@,
            ),
    {
        build_address_page_query(
            self.local_table.as_str(),
            modulus,
            pubkey,
            limit,
            before,
            until,
            settings_clause,
        )
    }
}

/// What goes before a query of all transactions goes before it.
pub proof fn law_expressions_go_before_the_query(
    with_clause: Seq<char>,
    transaction_table: Seq<char>,
    address_literal: Seq<char>,
    where_clause: Seq<char>,
    limit: u64,
    settings_clause: Seq<char>,
)
    ensures
        fallback_query(
            with_clause,
            transaction_table,
            address_literal,
            where_clause,
            limit,
            settings_clause,
        ) == with_clause + fallback_query(
            Seq::empty(),
            transaction_table,
            address_literal,
            where_clause,
            limit,
            settings_clause,
        ),
{
    assert(with_clause + Seq::<char>::empty() == with_clause);
    broadcast use sql::lemma_joined_first;

    sql::lemma_equal(
        fallback_query(
            with_clause,
            transaction_table,
            address_literal,
            where_clause,
            limit,
            settings_clause,
        ),
        with_clause + fallback_query(
            Seq::empty(),
            transaction_table,
            address_literal,
            where_clause,
            limit,
            settings_clause,
        ),
    );
}

/// Records are in a strict order: of two with different places or signatures exactly one comes before the
/// other, and a newer one comes before an older one.
pub proof fn law_newer_records_come_first<E>(a: SignatureRecord<E>, b: SignatureRecord<E>)
    ensures
        a.slot > b.slot ==> record_before(a, b),
        a.slot == b.slot && a.slot_idx > b.slot_idx ==> record_before(a, b),
        !(record_before(a, b) && record_before(b, a)),
        a.slot == b.slot && a.slot_idx == b.slot_idx && a.signature@ == b.signature@ <==>
            !record_before(a, b) && !record_before(b, a),
{
    text_search::law_texts_are_ordered(a.signature@, b.signature@);
}

/// A page leaves out no signature as long as it has room: every signature of the records stands in it.
pub proof fn law_page_leaves_out_no_signature<E>(s: Seq<SignatureRecord<E>>, i: int)
    requires
        0 <= i < s.len(),
    ensures
        has_signature(first_of_signatures(s), s[i].signature@),
    decreases s.len(),
{
    let rest = first_of_signatures(s.drop_last());
    let all = first_of_signatures(s);
    if i < s.len() - 1 {
        law_page_leaves_out_no_signature(s.drop_last(), i);
        assert(s.drop_last()[i] == s[i]);
    }
    if has_signature(rest, s[i].signature@) {
        let k = choose|k: int| 0 <= k < rest.len() && (#[trigger] rest[k]).signature@ == s[i].signature@;
        assert(all[k] == rest[k]);
    } else {
        assert(all[all.len() - 1] == s.last());
    }
}

/// Every record of every reply counts, and none is made up.
pub proof fn law_every_reply_counts<E>(
    replies: Seq<Result<Vec<SignatureRecord<E>>, ShardFailure>>,
    record: SignatureRecord<E>,
)
    ensures
        replied_records(replies).contains(record) <==> exists|i: int|
            0 <= i < replies.len() && (#[trigger] replies[i]) is Ok && replies[i]->Ok_0@.contains(record),
    decreases replies.len(),
{
    if replies.len() > 0 {
        let rest = replies.drop_last();
        law_every_reply_counts(rest, record);
        let a = replied_records(rest);
        let b = match replies.last() {
            Ok(records) => records@,
            Err(_) => Seq::empty(),
        };
        if a.contains(record) {
            let i = choose|i: int|
                0 <= i < rest.len() && (#[trigger] rest[i]) is Ok && rest[i]->Ok_0@.contains(record);
            assert(replies[i] == rest[i]);
            assert((a + b)[a.index_of(record)] == record);
        }
        if b.contains(record) {
            assert(replies[replies.len() - 1] == replies.last());
            assert((a + b)[a.len() + b.index_of(record)] == record);
        }
        if (a + b).contains(record) {
            let p = (a + b).index_of(record);
            assert(if p < a.len() {
                a[p] == record
            } else {
                b[p - a.len()] == record
            });
        }
        if exists|i: int|
            0 <= i < replies.len() && (#[trigger] replies[i]) is Ok && replies[i]->Ok_0@.contains(record) {
            let i = choose|i: int|
                0 <= i < replies.len() && (#[trigger] replies[i]) is Ok && replies[i]->Ok_0@.contains(
                    record,
                );
            if i < rest.len() {
                assert(rest[i] == replies[i]);
            }
        }
    }
}

/// The history of an address is asked for on shards only where they are known: all of them for a hot
/// address, and the one that holds it otherwise. It is asked for natively only where the configuration
/// says so.
pub proof fn law_first_route_uses_what_is_known(c: ClickHouseClient, pubkey: Seq<u8>)
    ensures
        ({
            let route = first_route(c, pubkey);
            &&& route is HotTcp || route is HotHttp <==> c.is_hot(pubkey) && c.shard_topology is Some
            &&& route is ShardTcp || route is ShardHttp <==> !c.is_hot(pubkey) && c.gsfa_router is Some
            &&& route is HotTcp || route is ShardTcp ==> c.routing_policy.transport is Tcp
            &&& route is ShardHttp ==> !(c.routing_policy.transport is Tcp)
            &&& route is HotTcp ==> c.routing_policy.scope is ShardDirect
            &&& route is HotHttp ==> !(c.routing_policy.transport is Tcp
                && c.routing_policy.scope is ShardDirect)
            &&& route is Distributed || route is HotTcp || route is HotHttp || route is ShardTcp
                || route is ShardHttp
        }),
{
}

/// The memo programs are the two that there are.
pub proof fn law_memo_programs_are_known()
    ensures
        memo_with() == "memo_program_ids AS ["@ + queries::address_expression(
            "Memo1UhkJRfHyvLMcVucJwxXeuD728EqVDDwQDxFMNo"@,
        ) + ","@ + queries::address_expression("MemoSq4gqABAXKb96qnH8TysNcWxMyWCqXgDLGmfcHr"@) + "]"@,
{
    reveal_strlit("memo_program_ids AS [CAST(base58Decode('Memo1UhkJRfHyvLMcVucJwxXeuD728EqVDDwQDxFMNo') AS FixedString(32)),CAST(base58Decode('MemoSq4gqABAXKb96qnH8TysNcWxMyWCqXgDLGmfcHr') AS FixedString(32))]");
    reveal_strlit("memo_program_ids AS [");
    reveal_strlit("CAST(base58Decode('");
    reveal_strlit("') AS FixedString(32))");
    reveal_strlit("Memo1UhkJRfHyvLMcVucJwxXeuD728EqVDDwQDxFMNo");
    reveal_strlit("MemoSq4gqABAXKb96qnH8TysNcWxMyWCqXgDLGmfcHr");
    reveal_strlit(",");
    reveal_strlit("]");
}

/// Where a way fails, the next one is: a shard that was asked natively is asked again, where the cause may
/// be gone, and a shard that was asked is followed by the distributed table. Other failures are reported.
pub proof fn law_failed_routes_are_followed(transient: bool)
    ensures
        GsfaRoute::HotTcp.spec_after_failure(true) == AfterFailure::Try(GsfaRoute::HotHttp),
        GsfaRoute::ShardTcp.spec_after_failure(true) == AfterFailure::Try(GsfaRoute::ShardHttp),
        GsfaRoute::HotTcp.spec_after_failure(false) is Report,
        GsfaRoute::ShardTcp.spec_after_failure(false) is Report,
        GsfaRoute::ShardHttp.spec_after_failure(transient) == AfterFailure::Try(GsfaRoute::Distributed),
        GsfaRoute::HotHttp.spec_after_failure(transient) is Report,
        GsfaRoute::Distributed.spec_after_failure(transient) is Report,
{
}

/// A page of an address is asked for by the address and its bucket.
pub proof fn law_page_is_asked_for_by_address(
    table: Seq<char>,
    modulus: u64,
    pubkey: Seq<u8>,
    limit: u64,
    before: Option<SlotBoundary>,
    until: Option<SlotBoundary>,
    raw: bool,
    settings_clause: Seq<char>,
)
    ensures
        address_page_query(table, modulus, pubkey, limit, before, until, raw, settings_clause)
            == gsfa_query(
            Seq::empty(),
            table,
            (hashing::cityhash(pubkey) as int % modulus as int) as u64,
            "toFixedString(unhex('"@ + text::hex_upper(pubkey) + "'), 32)"@,
            queries::page_text(before, until, raw),
            limit,
            settings_clause,
        ),
{
}

/// What a page needs is added behind the memo programs, without the word that introduces it.
pub proof fn law_page_expressions_follow_the_memo_programs(expressions: Seq<char>)
    requires
        expressions.len() > 0,
        !text_search::is_white(expressions[0]) && !text_search::is_white(expressions.last()),
    ensures
        fallback_with(Seq::empty()) == "WITH "@ + memo_with() + " "@,
        fallback_with("WITH "@ + expressions + " "@) == "WITH "@ + memo_with() + ", "@ + expressions + " "@,
{
    let with = "WITH "@;
    let none = Seq::<char>::empty();
    reveal_strlit("WITH ");
    reveal_strlit(" ");
    let clause = with + expressions + " "@;
    assert(clause =~= with + (expressions + " "@));
    text_search::law_parts_of_a_text_are_found(with, expressions + " "@, clause);
    assert(clause.skip(with.len() as int) =~= none + expressions + " "@);
    text_search::law_trim_takes_the_space_around(none, expressions, " "@);
    assert(!text_search::starts_with(none, with));
}

/// A page holds as many records as its limit, and one where that is none.
pub proof fn law_page_has_the_length_of_its_limit<E>(sorted: Seq<SignatureRecord<E>>, limit: u64)
    ensures
        page_length(0) == 1,
        limit > 0 ==> page_length(limit) == limit,
        first_page(sorted, limit).len() <= page_length(limit),
        first_page(sorted, limit).is_prefix_of(first_of_signatures(sorted)),
        first_of_signatures(sorted).len() >= page_length(limit) ==> first_page(sorted, limit).len()
            == page_length(limit),
        first_of_signatures(sorted).len() <= page_length(limit) ==> first_page(sorted, limit)
            == first_of_signatures(sorted),
{
    let first = first_of_signatures(sorted);
    let page = first_page(sorted, limit);
    assert(page =~= first.take(page.len() as int));
}

} // verus!
