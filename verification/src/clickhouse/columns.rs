//! The columns that queries select, and those that tables must have.
use vstd::prelude::*;

use crate::clickhouse::sharding;
use crate::text;

verus! {

/// The columns of a transaction, as a select list.
pub const TRANSACTION_SELECT_COLUMNS: &'static str = "signature,
                slot,
                slot_idx,
                block_time,
                tx_version,
                tx_signatures,
                tx_num_required_signatures,
                tx_num_readonly_signed_accounts,
                tx_num_readonly_unsigned_accounts,
                tx_account_keys,
                tx_recent_blockhash,
                tx_instructions_program_id_index,
                tx_instructions_accounts,
                tx_instructions_data,
                tx_address_table_lookups_present,
                tx_address_table_lookup_account_key,
                tx_address_table_lookup_writable_indexes,
                tx_address_table_lookup_readonly_indexes,
                meta_status_ok,
                meta_err,
                meta_fee,
                meta_pre_balances,
                meta_post_balances,
                meta_inner_instructions_present,
                meta_inner_instructions_index,
                meta_inner_instructions_program_id_index,
                meta_inner_instructions_accounts,
                meta_inner_instructions_data,
                meta_inner_instructions_stack_height,
                meta_log_messages_present,
                meta_log_messages,
                meta_pre_token_balances_present,
                meta_pre_token_account_index,
                meta_pre_token_mint,
                meta_pre_token_owner,
                meta_pre_token_program_id,
                meta_pre_token_amount,
                meta_pre_token_decimals,
                meta_pre_token_ui_amount,
                meta_pre_token_ui_amount_string,
                meta_post_token_balances_present,
                meta_post_token_account_index,
                meta_post_token_mint,
                meta_post_token_owner,
                meta_post_token_program_id,
                meta_post_token_amount,
                meta_post_token_decimals,
                meta_post_token_ui_amount,
                meta_post_token_ui_amount_string,
                meta_rewards_present,
                meta_reward_pubkey,
                meta_reward_lamports,
                meta_reward_post_balance,
                meta_reward_type,
                meta_reward_commission,
                meta_loaded_addresses_writable,
                meta_loaded_addresses_readonly,
                meta_return_data_present,
                meta_return_data_program_id,
                meta_return_data_data,
                meta_compute_units_consumed,
                meta_cost_units";

/// The columns of block metadata.
pub open spec fn block_metadata_base() -> Seq<Seq<char>> {
    seq![
        "slot"@, "parent_slot"@, "blockhash"@, "parent_blockhash"@, "block_time"@,
        "block_height"@, "executed_transaction_count"@, "entry_count"@,
        "rewards_num_partitions"@,
    ]
}

/// The columns of block metadata.
pub fn block_metadata_base_columns() -> (r: Vec<&'static str>)
    ensures
        sharding::literal_texts(r@) == block_metadata_base(),
{
    let r: Vec<&'static str> = vec![
        "slot", "parent_slot", "blockhash", "parent_blockhash", "block_time", "block_height",
        "executed_transaction_count", "entry_count", "rewards_num_partitions",
    ];
    proof {
        assert(sharding::literal_texts(r@) =~= block_metadata_base());
    }
    r
}

/// The columns of the rewards of a block.
pub open spec fn block_metadata_reward() -> Seq<Seq<char>> {
    seq![
        "rewards_present"@, "rewards_pubkey"@, "rewards_lamports"@, "rewards_post_balance"@,
        "rewards_type"@, "rewards_commission"@,
    ]
}

/// The columns of the rewards of a block.
pub fn block_metadata_reward_columns() -> (r: Vec<&'static str>)
    ensures
        sharding::literal_texts(r@) == block_metadata_reward(),
{
    let r: Vec<&'static str> = vec![
        "rewards_present", "rewards_pubkey", "rewards_lamports", "rewards_post_balance",
        "rewards_type", "rewards_commission",
    ];
    proof {
        assert(sharding::literal_texts(r@) =~= block_metadata_reward());
    }
    r
}

/// The column of a transaction signature.
pub open spec fn block_signature() -> Seq<Seq<char>> {
    seq![
        "signature"@,
    ]
}

/// The column of a transaction signature.
pub fn block_signature_columns() -> (r: Vec<&'static str>)
    ensures
        sharding::literal_texts(r@) == block_signature(),
{
    let r: Vec<&'static str> = vec![
        "signature",
    ];
    proof {
        assert(sharding::literal_texts(r@) =~= block_signature());
    }
    r
}

/// The columns of a transaction reduced to its accounts.
pub open spec fn block_accounts_base() -> Seq<Seq<char>> {
    seq![
        "tx_version"@, "tx_signatures"@, "tx_num_required_signatures"@,
        "tx_num_readonly_signed_accounts"@, "tx_num_readonly_unsigned_accounts"@,
        "tx_account_keys"@, "tx_instructions_program_id_index"@, "meta_status_ok"@, "meta_err"@,
        "meta_fee"@, "meta_pre_balances"@, "meta_post_balances"@,
        "meta_pre_token_balances_present"@, "meta_pre_token_account_index"@,
        "meta_pre_token_mint"@, "meta_pre_token_owner"@, "meta_pre_token_program_id"@,
        "meta_pre_token_amount"@, "meta_pre_token_decimals"@, "meta_pre_token_ui_amount"@,
        "meta_pre_token_ui_amount_string"@, "meta_post_token_balances_present"@,
        "meta_post_token_account_index"@, "meta_post_token_mint"@, "meta_post_token_owner"@,
        "meta_post_token_program_id"@, "meta_post_token_amount"@, "meta_post_token_decimals"@,
        "meta_post_token_ui_amount"@, "meta_post_token_ui_amount_string"@,
        "meta_loaded_addresses_writable"@, "meta_loaded_addresses_readonly"@,
    ]
}

/// The columns of a transaction reduced to its accounts.
pub fn block_accounts_base_columns() -> (r: Vec<&'static str>)
    ensures
        sharding::literal_texts(r@) == block_accounts_base(),
{
    let r: Vec<&'static str> = vec![
        "tx_version", "tx_signatures", "tx_num_required_signatures",
        "tx_num_readonly_signed_accounts", "tx_num_readonly_unsigned_accounts",
        "tx_account_keys", "tx_instructions_program_id_index", "meta_status_ok", "meta_err",
        "meta_fee", "meta_pre_balances", "meta_post_balances", "meta_pre_token_balances_present",
        "meta_pre_token_account_index", "meta_pre_token_mint", "meta_pre_token_owner",
        "meta_pre_token_program_id", "meta_pre_token_amount", "meta_pre_token_decimals",
        "meta_pre_token_ui_amount", "meta_pre_token_ui_amount_string",
        "meta_post_token_balances_present", "meta_post_token_account_index",
        "meta_post_token_mint", "meta_post_token_owner", "meta_post_token_program_id",
        "meta_post_token_amount", "meta_post_token_decimals", "meta_post_token_ui_amount",
        "meta_post_token_ui_amount_string", "meta_loaded_addresses_writable",
        "meta_loaded_addresses_readonly",
    ];
    proof {
        assert(sharding::literal_texts(r@) =~= block_accounts_base());
    }
    r
}

/// The columns of the rewards of a transaction.
pub open spec fn block_transaction_reward() -> Seq<Seq<char>> {
    seq![
        "meta_rewards_present"@, "meta_reward_pubkey"@, "meta_reward_lamports"@,
        "meta_reward_post_balance"@, "meta_reward_type"@, "meta_reward_commission"@,
    ]
}

/// The columns of the rewards of a transaction.
pub fn block_transaction_reward_columns() -> (r: Vec<&'static str>)
    ensures
        sharding::literal_texts(r@) == block_transaction_reward(),
{
    let r: Vec<&'static str> = vec![
        "meta_rewards_present", "meta_reward_pubkey", "meta_reward_lamports",
        "meta_reward_post_balance", "meta_reward_type", "meta_reward_commission",
    ];
    proof {
        assert(sharding::literal_texts(r@) =~= block_transaction_reward());
    }
    r
}

/// The columns of a whole transaction.
pub open spec fn block_full_base() -> Seq<Seq<char>> {
    seq![
        "slot_idx"@, "tx_version"@, "tx_signatures"@, "tx_num_required_signatures"@,
        "tx_num_readonly_signed_accounts"@, "tx_num_readonly_unsigned_accounts"@,
        "tx_account_keys"@, "tx_recent_blockhash"@, "tx_config_priority_fee"@,
        "tx_config_compute_unit_limit"@, "tx_config_loaded_accounts_data_size_limit"@,
        "tx_config_heap_size"@, "tx_instructions_program_id_index"@, "tx_instructions_accounts"@,
        "tx_instructions_data"@, "tx_address_table_lookups_present"@,
        "tx_address_table_lookup_account_key"@, "tx_address_table_lookup_writable_indexes"@,
        "tx_address_table_lookup_readonly_indexes"@, "meta_status_ok"@, "meta_err"@, "meta_fee"@,
        "meta_pre_balances"@, "meta_post_balances"@, "meta_inner_instructions_present"@,
        "meta_inner_instructions_index"@, "meta_inner_instructions_program_id_index"@,
        "meta_inner_instructions_accounts"@, "meta_inner_instructions_data"@,
        "meta_inner_instructions_stack_height"@, "meta_log_messages_present"@,
        "meta_log_messages"@, "meta_pre_token_balances_present"@,
        "meta_pre_token_account_index"@, "meta_pre_token_mint"@, "meta_pre_token_owner"@,
        "meta_pre_token_program_id"@, "meta_pre_token_amount"@, "meta_pre_token_decimals"@,
        "meta_pre_token_ui_amount"@, "meta_pre_token_ui_amount_string"@,
        "meta_post_token_balances_present"@, "meta_post_token_account_index"@,
        "meta_post_token_mint"@, "meta_post_token_owner"@, "meta_post_token_program_id"@,
        "meta_post_token_amount"@, "meta_post_token_decimals"@, "meta_post_token_ui_amount"@,
        "meta_post_token_ui_amount_string"@, "meta_loaded_addresses_writable"@,
        "meta_loaded_addresses_readonly"@, "meta_return_data_present"@,
        "meta_return_data_program_id"@, "meta_return_data_data"@, "meta_compute_units_consumed"@,
        "meta_cost_units"@,
    ]
}

/// The columns of a whole transaction.
pub fn block_full_base_columns() -> (r: Vec<&'static str>)
    ensures
        sharding::literal_texts(r@) == block_full_base(),
{
    let r: Vec<&'static str> = vec![
        "slot_idx", "tx_version", "tx_signatures", "tx_num_required_signatures",
        "tx_num_readonly_signed_accounts", "tx_num_readonly_unsigned_accounts",
        "tx_account_keys", "tx_recent_blockhash", "tx_config_priority_fee",
        "tx_config_compute_unit_limit", "tx_config_loaded_accounts_data_size_limit",
        "tx_config_heap_size", "tx_instructions_program_id_index", "tx_instructions_accounts",
        "tx_instructions_data", "tx_address_table_lookups_present",
        "tx_address_table_lookup_account_key", "tx_address_table_lookup_writable_indexes",
        "tx_address_table_lookup_readonly_indexes", "meta_status_ok", "meta_err", "meta_fee",
        "meta_pre_balances", "meta_post_balances", "meta_inner_instructions_present",
        "meta_inner_instructions_index", "meta_inner_instructions_program_id_index",
        "meta_inner_instructions_accounts", "meta_inner_instructions_data",
        "meta_inner_instructions_stack_height", "meta_log_messages_present", "meta_log_messages",
        "meta_pre_token_balances_present", "meta_pre_token_account_index", "meta_pre_token_mint",
        "meta_pre_token_owner", "meta_pre_token_program_id", "meta_pre_token_amount",
        "meta_pre_token_decimals", "meta_pre_token_ui_amount", "meta_pre_token_ui_amount_string",
        "meta_post_token_balances_present", "meta_post_token_account_index",
        "meta_post_token_mint", "meta_post_token_owner", "meta_post_token_program_id",
        "meta_post_token_amount", "meta_post_token_decimals", "meta_post_token_ui_amount",
        "meta_post_token_ui_amount_string", "meta_loaded_addresses_writable",
        "meta_loaded_addresses_readonly", "meta_return_data_present",
        "meta_return_data_program_id", "meta_return_data_data", "meta_compute_units_consumed",
        "meta_cost_units",
    ];
    proof {
        assert(sharding::literal_texts(r@) =~= block_full_base());
    }
    r
}

/// The columns that address history queries need.
pub open spec fn gsfa_required() -> Seq<Seq<char>> {
    seq![
        "addr_bucket"@, "address"@, "signature"@, "slot"@, "slot_idx"@, "memo"@, "err"@,
        "block_time"@,
    ]
}

/// The columns that address history queries need.
pub fn gsfa_required_columns() -> (r: Vec<&'static str>)
    ensures
        sharding::literal_texts(r@) == gsfa_required(),
{
    let r: Vec<&'static str> = vec![
        "addr_bucket", "address", "signature", "slot", "slot_idx", "memo", "err", "block_time",
    ];
    proof {
        assert(sharding::literal_texts(r@) =~= gsfa_required());
    }
    r
}

/// The columns that signature queries need.
pub open spec fn signatures_required() -> Seq<Seq<char>> {
    seq![
        "sig_bucket"@, "signature"@, "slot"@, "slot_idx"@, "err"@,
    ]
}

/// The columns that signature queries need.
pub fn signatures_required_columns() -> (r: Vec<&'static str>)
    ensures
        sharding::literal_texts(r@) == signatures_required(),
{
    let r: Vec<&'static str> = vec![
        "sig_bucket", "signature", "slot", "slot_idx", "err",
    ];
    proof {
        assert(sharding::literal_texts(r@) =~= signatures_required());
    }
    r
}

/// The columns that token owner queries need.
pub open spec fn token_owner_required() -> Seq<Seq<char>> {
    seq![
        "owner_bucket"@, "owner"@, "signature"@, "slot"@, "slot_idx"@, "memo"@, "err"@,
        "block_time"@, "balance_changed"@,
    ]
}

/// The columns that token owner queries need.
pub fn token_owner_required_columns() -> (r: Vec<&'static str>)
    ensures
        sharding::literal_texts(r@) == token_owner_required(),
{
    let r: Vec<&'static str> = vec![
        "owner_bucket", "owner", "signature", "slot", "slot_idx", "memo", "err", "block_time",
        "balance_changed",
    ];
    proof {
        assert(sharding::literal_texts(r@) =~= token_owner_required());
    }
    r
}

/// A select list: the columns, one to a line.
pub open spec fn select_list(columns: Seq<Seq<char>>) -> Seq<char> {
    text::join(columns, ",\n                "@)
}

/// Writes a select list.
pub fn format_select_columns(columns: &[&str]) -> (r: String)
    ensures
        r@ == select_list(sharding::literal_texts(columns@)),
{
    let mut parts: Vec<String> = Vec::new();
    let mut i: usize = 0;
    while i < columns.len()
        invariant
            i <= columns@.len(),
            text::texts(parts@) == sharding::literal_texts(columns@).take(i as int),
        decreases columns@.len() - i,
    {
        text::push_text(&mut parts, columns[i].to_owned());
        i += 1;
        proof {
            let all = sharding::literal_texts(columns@);
            assert(all.take(i as int) =~= all.take(i - 1).push(all[i - 1]));
        }
    }
    proof {
        let all = sharding::literal_texts(columns@);
        assert(all.take(all.len() as int) =~= all);
    }
    text::join_texts(&parts, ",\n                ")
}

/// One list of columns after another.
pub fn with_columns(first: Vec<&'static str>, more: Vec<&'static str>) -> (r: Vec<&'static str>)
    ensures
        sharding::literal_texts(r@) == sharding::literal_texts(first@) + sharding::literal_texts(
            more@,
        ),
{
    let mut r = first;
    let mut rest = more;
    r.append(&mut rest);
    proof {
        assert(sharding::literal_texts(r@) =~= sharding::literal_texts(first@)
            + sharding::literal_texts(more@));
    }
    r
}

/// The columns that are required of a table are those that its queries name.
pub proof fn law_named_columns_are_required(name: Seq<char>)
    ensures
        gsfa_required().contains(name) <==> name == "addr_bucket"@ || name == "address"@ || name
            == "signature"@ || name == "slot"@ || name == "slot_idx"@ || name == "memo"@ || name == "err"@
            || name == "block_time"@,
        signatures_required().contains(name) <==> name == "sig_bucket"@ || name == "signature"@ || name
            == "slot"@ || name == "slot_idx"@ || name == "err"@,
        token_owner_required().contains(name) <==> name == "owner_bucket"@ || name == "owner"@ || name
            == "signature"@ || name == "slot"@ || name == "slot_idx"@ || name == "memo"@ || name == "err"@
            || name == "block_time"@ || name == "balance_changed"@,
{
    let g = gsfa_required();
    let s = signatures_required();
    let t = token_owner_required();
    assert(g[0] == "addr_bucket"@ && g[1] == "address"@ && g[2] == "signature"@ && g[3] == "slot"@ && g[4]
        == "slot_idx"@ && g[5] == "memo"@ && g[6] == "err"@ && g[7] == "block_time"@ && g.len() == 8);
    assert(s[0] == "sig_bucket"@ && s[1] == "signature"@ && s[2] == "slot"@ && s[3] == "slot_idx"@ && s[4]
        == "err"@ && s.len() == 5);
    assert(t[0] == "owner_bucket"@ && t[1] == "owner"@ && t[2] == "signature"@ && t[3] == "slot"@ && t[4]
        == "slot_idx"@ && t[5] == "memo"@ && t[6] == "err"@ && t[7] == "block_time"@ && t[8]
        == "balance_changed"@ && t.len() == 9);
}

/// A select list names all its columns, in their order, with commas between them.
pub proof fn law_select_list_names_every_column(columns: Seq<Seq<char>>, column: Seq<char>)
    ensures
        select_list(seq![column]) == column,
        columns.len() > 0 ==> select_list(columns.push(column)) == select_list(columns)
            + ",\n                "@ + column,
{
    let more = columns.push(column);
    assert(more.drop_last() =~= columns);
    reveal_with_fuel(text::join, 2);
}

/// The columns of a block without its rewards name none of them.
pub proof fn lemma_metadata_without_rewards()
    ensures
        !block_metadata_base().contains("rewards_pubkey"@),
        !block_metadata_base().contains("rewards_lamports"@),
{
    reveal_strlit("slot");
    reveal_strlit("parent_slot");
    reveal_strlit("blockhash");
    reveal_strlit("parent_blockhash");
    reveal_strlit("block_time");
    reveal_strlit("block_height");
    reveal_strlit("executed_transaction_count");
    reveal_strlit("entry_count");
    reveal_strlit("rewards_num_partitions");
    reveal_strlit("rewards_pubkey");
    reveal_strlit("rewards_lamports");
    let b = block_metadata_base();
    assert("rewards_pubkey"@[0] == 'r' && "rewards_pubkey"@.len() == 14);
    assert("rewards_lamports"@[0] == 'r' && "rewards_lamports"@.len() == 16);
    assert(b[0].len() == 4 && b[1].len() == 11 && b[2].len() == 9 && b[3][0] == 'p' && b[4].len() == 10
        && b[5].len() == 12 && b[6].len() == 26 && b[7].len() == 11 && b[8].len() == 22 && b.len() == 9);
}

} // verus!
