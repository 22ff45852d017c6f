//! The rows that queries return, and the records that are made of them.
use vstd::prelude::*;

use crate::hashing;
use crate::processing::ProcessingError;
use crate::text;

verus! {

/// A transaction as the database returns it. `U` is the type of token amounts for display.
#[derive(Debug)]
pub struct TransactionRow<U> {
    pub signature: [u8; 64],
    pub slot: u64,
    pub slot_idx: u32,
    pub block_time: Option<i64>,
    pub is_vote: bool,
    pub tx_version: Option<u8>,
    pub tx_signatures: Vec<[u8; 64]>,
    pub tx_num_required_signatures: u8,
    pub tx_num_readonly_signed_accounts: u8,
    pub tx_num_readonly_unsigned_accounts: u8,
    pub tx_account_keys: Vec<[u8; 32]>,
    pub tx_recent_blockhash: [u8; 32],
    pub tx_instructions_program_id_index: Vec<u8>,
    pub tx_instructions_accounts: Vec<Vec<u8>>,
    pub tx_instructions_data: Vec<Vec<u8>>,
    pub tx_address_table_lookups_present: bool,
    pub tx_address_table_lookup_account_key: Vec<[u8; 32]>,
    pub tx_address_table_lookup_writable_indexes: Vec<Vec<u8>>,
    pub tx_address_table_lookup_readonly_indexes: Vec<Vec<u8>>,
    pub meta_status_ok: bool,
    pub meta_err: Option<String>,
    pub meta_fee: u64,
    pub meta_pre_balances: Vec<u64>,
    pub meta_post_balances: Vec<u64>,
    pub meta_inner_instructions_present: bool,
    pub meta_inner_instructions_index: Vec<u8>,
    pub meta_inner_instructions_program_id_index: Vec<Vec<u8>>,
    pub meta_inner_instructions_accounts: Vec<Vec<Vec<u8>>>,
    pub meta_inner_instructions_data: Vec<Vec<Vec<u8>>>,
    pub meta_inner_instructions_stack_height: Vec<Vec<Option<u32>>>,
    pub meta_log_messages_present: bool,
    pub meta_log_messages: Vec<String>,
    pub meta_pre_token_balances_present: bool,
    pub meta_pre_token_account_index: Vec<u8>,
    pub meta_pre_token_mint: Vec<[u8; 32]>,
    pub meta_pre_token_owner: Vec<Option<[u8; 32]>>,
    pub meta_pre_token_program_id: Vec<Option<[u8; 32]>>,
    pub meta_pre_token_amount: Vec<String>,
    pub meta_pre_token_decimals: Vec<u8>,
    pub meta_pre_token_ui_amount: Vec<Option<U>>,
    pub meta_pre_token_ui_amount_string: Vec<String>,
    pub meta_post_token_balances_present: bool,
    pub meta_post_token_account_index: Vec<u8>,
    pub meta_post_token_mint: Vec<[u8; 32]>,
    pub meta_post_token_owner: Vec<Option<[u8; 32]>>,
    pub meta_post_token_program_id: Vec<Option<[u8; 32]>>,
    pub meta_post_token_amount: Vec<String>,
    pub meta_post_token_decimals: Vec<u8>,
    pub meta_post_token_ui_amount: Vec<Option<U>>,
    pub meta_post_token_ui_amount_string: Vec<String>,
    pub meta_rewards_present: bool,
    pub meta_reward_pubkey: Vec<String>,
    pub meta_reward_lamports: Vec<i64>,
    pub meta_reward_post_balance: Vec<u64>,
    pub meta_reward_type: Vec<Option<String>>,
    pub meta_reward_commission: Vec<Option<u8>>,
    pub meta_loaded_addresses_writable: Vec<[u8; 32]>,
    pub meta_loaded_addresses_readonly: Vec<[u8; 32]>,
    pub meta_return_data_present: bool,
    pub meta_return_data_program_id: Option<[u8; 32]>,
    pub meta_return_data_data: Option<Vec<u8>>,
    pub meta_compute_units_consumed: Option<u64>,
    pub meta_cost_units: Option<u64>,
}

/// A transaction.
#[derive(Debug)]
pub struct StoredTransactionRecord<U> {
    pub signature: [u8; 64],
    pub slot: u64,
    pub slot_idx: u32,
    pub block_time: Option<i64>,
    pub is_vote: bool,
    pub tx_version: Option<u8>,
    pub tx_signatures: Vec<[u8; 64]>,
    pub tx_num_required_signatures: u8,
    pub tx_num_readonly_signed_accounts: u8,
    pub tx_num_readonly_unsigned_accounts: u8,
    pub tx_account_keys: Vec<[u8; 32]>,
    pub tx_recent_blockhash: [u8; 32],
    pub tx_instructions_program_id_index: Vec<u8>,
    pub tx_instructions_accounts: Vec<Vec<u8>>,
    pub tx_instructions_data: Vec<Vec<u8>>,
    pub tx_address_table_lookups_present: bool,
    pub tx_address_table_lookup_account_key: Vec<[u8; 32]>,
    pub tx_address_table_lookup_writable_indexes: Vec<Vec<u8>>,
    pub tx_address_table_lookup_readonly_indexes: Vec<Vec<u8>>,
    pub meta_status_ok: bool,
    pub meta_err: Option<String>,
    pub meta_fee: u64,
    pub meta_pre_balances: Vec<u64>,
    pub meta_post_balances: Vec<u64>,
    pub meta_inner_instructions_present: bool,
    pub meta_inner_instructions_index: Vec<u8>,
    pub meta_inner_instructions_program_id_index: Vec<Vec<u8>>,
    pub meta_inner_instructions_accounts: Vec<Vec<Vec<u8>>>,
    pub meta_inner_instructions_data: Vec<Vec<Vec<u8>>>,
    pub meta_inner_instructions_stack_height: Vec<Vec<Option<u32>>>,
    pub meta_log_messages_present: bool,
    pub meta_log_messages: Vec<String>,
    pub meta_pre_token_balances_present: bool,
    pub meta_pre_token_account_index: Vec<u8>,
    pub meta_pre_token_mint: Vec<[u8; 32]>,
    pub meta_pre_token_owner: Vec<Option<[u8; 32]>>,
    pub meta_pre_token_program_id: Vec<Option<[u8; 32]>>,
    pub meta_pre_token_amount: Vec<String>,
    pub meta_pre_token_decimals: Vec<u8>,
    pub meta_pre_token_ui_amount: Vec<Option<U>>,
    pub meta_pre_token_ui_amount_string: Vec<String>,
    pub meta_post_token_balances_present: bool,
    pub meta_post_token_account_index: Vec<u8>,
    pub meta_post_token_mint: Vec<[u8; 32]>,
    pub meta_post_token_owner: Vec<Option<[u8; 32]>>,
    pub meta_post_token_program_id: Vec<Option<[u8; 32]>>,
    pub meta_post_token_amount: Vec<String>,
    pub meta_post_token_decimals: Vec<u8>,
    pub meta_post_token_ui_amount: Vec<Option<U>>,
    pub meta_post_token_ui_amount_string: Vec<String>,
    pub meta_rewards_present: bool,
    pub meta_reward_pubkey: Vec<String>,
    pub meta_reward_lamports: Vec<i64>,
    pub meta_reward_post_balance: Vec<u64>,
    pub meta_reward_type: Vec<Option<String>>,
    pub meta_reward_commission: Vec<Option<u8>>,
    pub meta_loaded_addresses_writable: Vec<[u8; 32]>,
    pub meta_loaded_addresses_readonly: Vec<[u8; 32]>,
    pub meta_return_data_present: bool,
    pub meta_return_data_program_id: Option<[u8; 32]>,
    pub meta_return_data_data: Option<Vec<u8>>,
    pub meta_compute_units_consumed: Option<u64>,
    pub meta_cost_units: Option<u64>,
}

/// A block as the database returns it.
#[derive(Debug)]
pub struct BlockMetadataRow {
    pub slot: u64,
    pub parent_slot: u64,
    pub blockhash: [u8; 32],
    pub parent_blockhash: [u8; 32],
    pub block_time: Option<i64>,
    pub block_height: Option<u64>,
    pub executed_transaction_count: u64,
    pub entry_count: u64,
    pub rewards_present: bool,
    pub rewards_pubkey: Vec<[u8; 32]>,
    pub rewards_lamports: Vec<i64>,
    pub rewards_post_balance: Vec<u64>,
    pub rewards_type: Vec<Option<String>>,
    pub rewards_commission: Vec<Option<u8>>,
    pub rewards_num_partitions: Option<u64>,
}

/// A block as the database returns it, without its rewards.
#[derive(Debug)]
pub struct BlockMetadataBaseRow {
    pub slot: u64,
    pub parent_slot: u64,
    pub blockhash: [u8; 32],
    pub parent_blockhash: [u8; 32],
    pub block_time: Option<i64>,
    pub block_height: Option<u64>,
    pub executed_transaction_count: u64,
    pub entry_count: u64,
    pub rewards_num_partitions: Option<u64>,
}

/// A block.
#[derive(Debug)]
pub struct BlockMetadataRecord {
    pub slot: u64,
    pub parent_slot: u64,
    pub blockhash: [u8; 32],
    pub parent_blockhash: [u8; 32],
    pub block_time: Option<i64>,
    pub block_height: Option<u64>,
    pub executed_transaction_count: u64,
    pub entry_count: u64,
    pub rewards_present: bool,
    pub rewards_pubkey: Vec<[u8; 32]>,
    pub rewards_lamports: Vec<i64>,
    pub rewards_post_balance: Vec<u64>,
    pub rewards_type: Vec<Option<String>>,
    pub rewards_commission: Vec<Option<u8>>,
    pub rewards_num_partitions: Option<u64>,
}

/// The accounts of a transaction of a block as the database returns them.
#[derive(Debug)]
pub struct BlockAccountsTransactionRow<U> {
    pub tx_version: Option<u8>,
    pub tx_signatures: Vec<[u8; 64]>,
    pub tx_num_required_signatures: u8,
    pub tx_num_readonly_signed_accounts: u8,
    pub tx_num_readonly_unsigned_accounts: u8,
    pub tx_account_keys: Vec<[u8; 32]>,
    pub tx_instructions_program_id_index: Vec<u8>,
    pub meta_status_ok: bool,
    pub meta_err: Option<String>,
    pub meta_fee: u64,
    pub meta_pre_balances: Vec<u64>,
    pub meta_post_balances: Vec<u64>,
    pub meta_pre_token_balances_present: bool,
    pub meta_pre_token_account_index: Vec<u8>,
    pub meta_pre_token_mint: Vec<[u8; 32]>,
    pub meta_pre_token_owner: Vec<Option<[u8; 32]>>,
    pub meta_pre_token_program_id: Vec<Option<[u8; 32]>>,
    pub meta_pre_token_amount: Vec<String>,
    pub meta_pre_token_decimals: Vec<u8>,
    pub meta_pre_token_ui_amount: Vec<Option<U>>,
    pub meta_pre_token_ui_amount_string: Vec<String>,
    pub meta_post_token_balances_present: bool,
    pub meta_post_token_account_index: Vec<u8>,
    pub meta_post_token_mint: Vec<[u8; 32]>,
    pub meta_post_token_owner: Vec<Option<[u8; 32]>>,
    pub meta_post_token_program_id: Vec<Option<[u8; 32]>>,
    pub meta_post_token_amount: Vec<String>,
    pub meta_post_token_decimals: Vec<u8>,
    pub meta_post_token_ui_amount: Vec<Option<U>>,
    pub meta_post_token_ui_amount_string: Vec<String>,
    pub meta_rewards_present: bool,
    pub meta_reward_pubkey: Vec<String>,
    pub meta_reward_lamports: Vec<i64>,
    pub meta_reward_post_balance: Vec<u64>,
    pub meta_reward_type: Vec<Option<String>>,
    pub meta_reward_commission: Vec<Option<u8>>,
    pub meta_loaded_addresses_writable: Vec<[u8; 32]>,
    pub meta_loaded_addresses_readonly: Vec<[u8; 32]>,
}

/// The accounts of a transaction.
#[derive(Debug)]
pub struct StoredAccountsTransactionRecord<U> {
    pub tx_version: Option<u8>,
    pub tx_signatures: Vec<[u8; 64]>,
    pub tx_num_required_signatures: u8,
    pub tx_num_readonly_signed_accounts: u8,
    pub tx_num_readonly_unsigned_accounts: u8,
    pub tx_account_keys: Vec<[u8; 32]>,
    pub tx_instructions_program_id_index: Vec<u8>,
    pub meta_status_ok: bool,
    pub meta_err: Option<String>,
    pub meta_fee: u64,
    pub meta_pre_balances: Vec<u64>,
    pub meta_post_balances: Vec<u64>,
    pub meta_pre_token_balances_present: bool,
    pub meta_pre_token_account_index: Vec<u8>,
    pub meta_pre_token_mint: Vec<[u8; 32]>,
    pub meta_pre_token_owner: Vec<Option<[u8; 32]>>,
    pub meta_pre_token_program_id: Vec<Option<[u8; 32]>>,
    pub meta_pre_token_amount: Vec<String>,
    pub meta_pre_token_decimals: Vec<u8>,
    pub meta_pre_token_ui_amount: Vec<Option<U>>,
    pub meta_pre_token_ui_amount_string: Vec<String>,
    pub meta_post_token_balances_present: bool,
    pub meta_post_token_account_index: Vec<u8>,
    pub meta_post_token_mint: Vec<[u8; 32]>,
    pub meta_post_token_owner: Vec<Option<[u8; 32]>>,
    pub meta_post_token_program_id: Vec<Option<[u8; 32]>>,
    pub meta_post_token_amount: Vec<String>,
    pub meta_post_token_decimals: Vec<u8>,
    pub meta_post_token_ui_amount: Vec<Option<U>>,
    pub meta_post_token_ui_amount_string: Vec<String>,
    pub meta_rewards_present: bool,
    pub meta_reward_pubkey: Vec<String>,
    pub meta_reward_lamports: Vec<i64>,
    pub meta_reward_post_balance: Vec<u64>,
    pub meta_reward_type: Vec<Option<String>>,
    pub meta_reward_commission: Vec<Option<u8>>,
    pub meta_loaded_addresses_writable: Vec<[u8; 32]>,
    pub meta_loaded_addresses_readonly: Vec<[u8; 32]>,
}

/// A transaction of a block as the database returns it. The settings of a transaction are read and
/// not kept.
#[derive(Debug)]
pub struct BlockFullTransactionRow<U> {
    pub slot_idx: u32,
    pub is_vote: bool,
    pub tx_version: Option<u8>,
    pub tx_signatures: Vec<[u8; 64]>,
    pub tx_num_required_signatures: u8,
    pub tx_num_readonly_signed_accounts: u8,
    pub tx_num_readonly_unsigned_accounts: u8,
    pub tx_account_keys: Vec<[u8; 32]>,
    pub tx_recent_blockhash: [u8; 32],
    pub tx_config_priority_fee: Option<u64>,
    pub tx_config_compute_unit_limit: Option<u32>,
    pub tx_config_loaded_accounts_data_size_limit: Option<u32>,
    pub tx_config_heap_size: Option<u32>,
    pub tx_instructions_program_id_index: Vec<u8>,
    pub tx_instructions_accounts: Vec<Vec<u8>>,
    pub tx_instructions_data: Vec<Vec<u8>>,
    pub tx_address_table_lookups_present: bool,
    pub tx_address_table_lookup_account_key: Vec<[u8; 32]>,
    pub tx_address_table_lookup_writable_indexes: Vec<Vec<u8>>,
    pub tx_address_table_lookup_readonly_indexes: Vec<Vec<u8>>,
    pub meta_status_ok: bool,
    pub meta_err: Option<String>,
    pub meta_fee: u64,
    pub meta_pre_balances: Vec<u64>,
    pub meta_post_balances: Vec<u64>,
    pub meta_inner_instructions_present: bool,
    pub meta_inner_instructions_index: Vec<u8>,
    pub meta_inner_instructions_program_id_index: Vec<Vec<u8>>,
    pub meta_inner_instructions_accounts: Vec<Vec<Vec<u8>>>,
    pub meta_inner_instructions_data: Vec<Vec<Vec<u8>>>,
    pub meta_inner_instructions_stack_height: Vec<Vec<Option<u32>>>,
    pub meta_log_messages_present: bool,
    pub meta_log_messages: Vec<String>,
    pub meta_pre_token_balances_present: bool,
    pub meta_pre_token_account_index: Vec<u8>,
    pub meta_pre_token_mint: Vec<[u8; 32]>,
    pub meta_pre_token_owner: Vec<Option<[u8; 32]>>,
    pub meta_pre_token_program_id: Vec<Option<[u8; 32]>>,
    pub meta_pre_token_amount: Vec<String>,
    pub meta_pre_token_decimals: Vec<u8>,
    pub meta_pre_token_ui_amount: Vec<Option<U>>,
    pub meta_pre_token_ui_amount_string: Vec<String>,
    pub meta_post_token_balances_present: bool,
    pub meta_post_token_account_index: Vec<u8>,
    pub meta_post_token_mint: Vec<[u8; 32]>,
    pub meta_post_token_owner: Vec<Option<[u8; 32]>>,
    pub meta_post_token_program_id: Vec<Option<[u8; 32]>>,
    pub meta_post_token_amount: Vec<String>,
    pub meta_post_token_decimals: Vec<u8>,
    pub meta_post_token_ui_amount: Vec<Option<U>>,
    pub meta_post_token_ui_amount_string: Vec<String>,
    pub meta_rewards_present: bool,
    pub meta_reward_pubkey: Vec<String>,
    pub meta_reward_lamports: Vec<i64>,
    pub meta_reward_post_balance: Vec<u64>,
    pub meta_reward_type: Vec<Option<String>>,
    pub meta_reward_commission: Vec<Option<u8>>,
    pub meta_loaded_addresses_writable: Vec<[u8; 32]>,
    pub meta_loaded_addresses_readonly: Vec<[u8; 32]>,
    pub meta_return_data_present: bool,
    pub meta_return_data_program_id: Option<[u8; 32]>,
    pub meta_return_data_data: Option<Vec<u8>>,
    pub meta_compute_units_consumed: Option<u64>,
    pub meta_cost_units: Option<u64>,
}

/// Makes a record of a transaction.
pub fn map_transaction_row<U>(row: TransactionRow<U>) -> (r: StoredTransactionRecord<U>)
    ensures
        r == (StoredTransactionRecord {
            signature: row.signature,
            slot: row.slot,
            slot_idx: row.slot_idx,
            block_time: row.block_time,
            is_vote: row.is_vote,
            tx_version: row.tx_version,
            tx_signatures: row.tx_signatures,
            tx_num_required_signatures: row.tx_num_required_signatures,
            tx_num_readonly_signed_accounts: row.tx_num_readonly_signed_accounts,
            tx_num_readonly_unsigned_accounts: row.tx_num_readonly_unsigned_accounts,
            tx_account_keys: row.tx_account_keys,
            tx_recent_blockhash: row.tx_recent_blockhash,
            tx_instructions_program_id_index: row.tx_instructions_program_id_index,
            tx_instructions_accounts: row.tx_instructions_accounts,
            tx_instructions_data: row.tx_instructions_data,
            tx_address_table_lookups_present: row.tx_address_table_lookups_present,
            tx_address_table_lookup_account_key: row.tx_address_table_lookup_account_key,
            tx_address_table_lookup_writable_indexes: row.tx_address_table_lookup_writable_indexes,
            tx_address_table_lookup_readonly_indexes: row.tx_address_table_lookup_readonly_indexes,
            meta_status_ok: row.meta_status_ok,
            meta_err: row.meta_err,
            meta_fee: row.meta_fee,
            meta_pre_balances: row.meta_pre_balances,
            meta_post_balances: row.meta_post_balances,
            meta_inner_instructions_present: row.meta_inner_instructions_present,
            meta_inner_instructions_index: row.meta_inner_instructions_index,
            meta_inner_instructions_program_id_index: row.meta_inner_instructions_program_id_index,
            meta_inner_instructions_accounts: row.meta_inner_instructions_accounts,
            meta_inner_instructions_data: row.meta_inner_instructions_data,
            meta_inner_instructions_stack_height: row.meta_inner_instructions_stack_height,
            meta_log_messages_present: row.meta_log_messages_present,
            meta_log_messages: row.meta_log_messages,
            meta_pre_token_balances_present: row.meta_pre_token_balances_present,
            meta_pre_token_account_index: row.meta_pre_token_account_index,
            meta_pre_token_mint: row.meta_pre_token_mint,
            meta_pre_token_owner: row.meta_pre_token_owner,
            meta_pre_token_program_id: row.meta_pre_token_program_id,
            meta_pre_token_amount: row.meta_pre_token_amount,
            meta_pre_token_decimals: row.meta_pre_token_decimals,
            meta_pre_token_ui_amount: row.meta_pre_token_ui_amount,
            meta_pre_token_ui_amount_string: row.meta_pre_token_ui_amount_string,
            meta_post_token_balances_present: row.meta_post_token_balances_present,
            meta_post_token_account_index: row.meta_post_token_account_index,
            meta_post_token_mint: row.meta_post_token_mint,
            meta_post_token_owner: row.meta_post_token_owner,
            meta_post_token_program_id: row.meta_post_token_program_id,
            meta_post_token_amount: row.meta_post_token_amount,
            meta_post_token_decimals: row.meta_post_token_decimals,
            meta_post_token_ui_amount: row.meta_post_token_ui_amount,
            meta_post_token_ui_amount_string: row.meta_post_token_ui_amount_string,
            meta_rewards_present: row.meta_rewards_present,
            meta_reward_pubkey: row.meta_reward_pubkey,
            meta_reward_lamports: row.meta_reward_lamports,
            meta_reward_post_balance: row.meta_reward_post_balance,
            meta_reward_type: row.meta_reward_type,
            meta_reward_commission: row.meta_reward_commission,
            meta_loaded_addresses_writable: row.meta_loaded_addresses_writable,
            meta_loaded_addresses_readonly: row.meta_loaded_addresses_readonly,
            meta_return_data_present: row.meta_return_data_present,
            meta_return_data_program_id: row.meta_return_data_program_id,
            meta_return_data_data: row.meta_return_data_data,
            meta_compute_units_consumed: row.meta_compute_units_consumed,
            meta_cost_units: row.meta_cost_units,
        }),
{
    StoredTransactionRecord {
        signature: row.signature,
        slot: row.slot,
        slot_idx: row.slot_idx,
        block_time: row.block_time,
        is_vote: row.is_vote,
        tx_version: row.tx_version,
        tx_signatures: row.tx_signatures,
        tx_num_required_signatures: row.tx_num_required_signatures,
        tx_num_readonly_signed_accounts: row.tx_num_readonly_signed_accounts,
        tx_num_readonly_unsigned_accounts: row.tx_num_readonly_unsigned_accounts,
        tx_account_keys: row.tx_account_keys,
        tx_recent_blockhash: row.tx_recent_blockhash,
        tx_instructions_program_id_index: row.tx_instructions_program_id_index,
        tx_instructions_accounts: row.tx_instructions_accounts,
        tx_instructions_data: row.tx_instructions_data,
        tx_address_table_lookups_present: row.tx_address_table_lookups_present,
        tx_address_table_lookup_account_key: row.tx_address_table_lookup_account_key,
        tx_address_table_lookup_writable_indexes: row.tx_address_table_lookup_writable_indexes,
        tx_address_table_lookup_readonly_indexes: row.tx_address_table_lookup_readonly_indexes,
        meta_status_ok: row.meta_status_ok,
        meta_err: row.meta_err,
        meta_fee: row.meta_fee,
        meta_pre_balances: row.meta_pre_balances,
        meta_post_balances: row.meta_post_balances,
        meta_inner_instructions_present: row.meta_inner_instructions_present,
        meta_inner_instructions_index: row.meta_inner_instructions_index,
        meta_inner_instructions_program_id_index: row.meta_inner_instructions_program_id_index,
        meta_inner_instructions_accounts: row.meta_inner_instructions_accounts,
        meta_inner_instructions_data: row.meta_inner_instructions_data,
        meta_inner_instructions_stack_height: row.meta_inner_instructions_stack_height,
        meta_log_messages_present: row.meta_log_messages_present,
        meta_log_messages: row.meta_log_messages,
        meta_pre_token_balances_present: row.meta_pre_token_balances_present,
        meta_pre_token_account_index: row.meta_pre_token_account_index,
        meta_pre_token_mint: row.meta_pre_token_mint,
        meta_pre_token_owner: row.meta_pre_token_owner,
        meta_pre_token_program_id: row.meta_pre_token_program_id,
        meta_pre_token_amount: row.meta_pre_token_amount,
        meta_pre_token_decimals: row.meta_pre_token_decimals,
        meta_pre_token_ui_amount: row.meta_pre_token_ui_amount,
        meta_pre_token_ui_amount_string: row.meta_pre_token_ui_amount_string,
        meta_post_token_balances_present: row.meta_post_token_balances_present,
        meta_post_token_account_index: row.meta_post_token_account_index,
        meta_post_token_mint: row.meta_post_token_mint,
        meta_post_token_owner: row.meta_post_token_owner,
        meta_post_token_program_id: row.meta_post_token_program_id,
        meta_post_token_amount: row.meta_post_token_amount,
        meta_post_token_decimals: row.meta_post_token_decimals,
        meta_post_token_ui_amount: row.meta_post_token_ui_amount,
        meta_post_token_ui_amount_string: row.meta_post_token_ui_amount_string,
        meta_rewards_present: row.meta_rewards_present,
        meta_reward_pubkey: row.meta_reward_pubkey,
        meta_reward_lamports: row.meta_reward_lamports,
        meta_reward_post_balance: row.meta_reward_post_balance,
        meta_reward_type: row.meta_reward_type,
        meta_reward_commission: row.meta_reward_commission,
        meta_loaded_addresses_writable: row.meta_loaded_addresses_writable,
        meta_loaded_addresses_readonly: row.meta_loaded_addresses_readonly,
        meta_return_data_present: row.meta_return_data_present,
        meta_return_data_program_id: row.meta_return_data_program_id,
        meta_return_data_data: row.meta_return_data_data,
        meta_compute_units_consumed: row.meta_compute_units_consumed,
        meta_cost_units: row.meta_cost_units,
    }
}

/// Makes a record of a block.
pub fn map_block_metadata_row(row: BlockMetadataRow) -> (r: BlockMetadataRecord)
    ensures
        r == (BlockMetadataRecord {
            slot: row.slot,
            parent_slot: row.parent_slot,
            blockhash: row.blockhash,
            parent_blockhash: row.parent_blockhash,
            block_time: row.block_time,
            block_height: row.block_height,
            executed_transaction_count: row.executed_transaction_count,
            entry_count: row.entry_count,
            rewards_present: row.rewards_present,
            rewards_pubkey: row.rewards_pubkey,
            rewards_lamports: row.rewards_lamports,
            rewards_post_balance: row.rewards_post_balance,
            rewards_type: row.rewards_type,
            rewards_commission: row.rewards_commission,
            rewards_num_partitions: row.rewards_num_partitions,
        }),
{
    BlockMetadataRecord {
        slot: row.slot,
        parent_slot: row.parent_slot,
        blockhash: row.blockhash,
        parent_blockhash: row.parent_blockhash,
        block_time: row.block_time,
        block_height: row.block_height,
        executed_transaction_count: row.executed_transaction_count,
        entry_count: row.entry_count,
        rewards_present: row.rewards_present,
        rewards_pubkey: row.rewards_pubkey,
        rewards_lamports: row.rewards_lamports,
        rewards_post_balance: row.rewards_post_balance,
        rewards_type: row.rewards_type,
        rewards_commission: row.rewards_commission,
        rewards_num_partitions: row.rewards_num_partitions,
    }
}

/// Makes a record of a block without its rewards.
pub fn map_block_metadata_base_row(row: BlockMetadataBaseRow) -> (r: BlockMetadataRecord)
    ensures
        r.slot == row.slot,
        r.parent_slot == row.parent_slot,
        r.blockhash == row.blockhash,
        r.parent_blockhash == row.parent_blockhash,
        r.block_time == row.block_time,
        r.block_height == row.block_height,
        r.executed_transaction_count == row.executed_transaction_count,
        r.entry_count == row.entry_count,
        !r.rewards_present,
        r.rewards_pubkey@.len() == 0,
        r.rewards_lamports@.len() == 0,
        r.rewards_post_balance@.len() == 0,
        r.rewards_type@.len() == 0,
        r.rewards_commission@.len() == 0,
        r.rewards_num_partitions == row.rewards_num_partitions,
{
    BlockMetadataRecord {
        slot: row.slot,
        parent_slot: row.parent_slot,
        blockhash: row.blockhash,
        parent_blockhash: row.parent_blockhash,
        block_time: row.block_time,
        block_height: row.block_height,
        executed_transaction_count: row.executed_transaction_count,
        entry_count: row.entry_count,
        rewards_present: false,
        rewards_pubkey: Vec::new(),
        rewards_lamports: Vec::new(),
        rewards_post_balance: Vec::new(),
        rewards_type: Vec::new(),
        rewards_commission: Vec::new(),
        rewards_num_partitions: row.rewards_num_partitions,
    }
}

/// Makes a record of the accounts of a transaction.
pub fn map_block_accounts_transaction_row<U>(row: BlockAccountsTransactionRow<U>) -> (r: StoredAccountsTransactionRecord<U>)
    ensures
        r == (StoredAccountsTransactionRecord {
            tx_version: row.tx_version,
            tx_signatures: row.tx_signatures,
            tx_num_required_signatures: row.tx_num_required_signatures,
            tx_num_readonly_signed_accounts: row.tx_num_readonly_signed_accounts,
            tx_num_readonly_unsigned_accounts: row.tx_num_readonly_unsigned_accounts,
            tx_account_keys: row.tx_account_keys,
            tx_instructions_program_id_index: row.tx_instructions_program_id_index,
            meta_status_ok: row.meta_status_ok,
            meta_err: row.meta_err,
            meta_fee: row.meta_fee,
            meta_pre_balances: row.meta_pre_balances,
            meta_post_balances: row.meta_post_balances,
            meta_pre_token_balances_present: row.meta_pre_token_balances_present,
            meta_pre_token_account_index: row.meta_pre_token_account_index,
            meta_pre_token_mint: row.meta_pre_token_mint,
            meta_pre_token_owner: row.meta_pre_token_owner,
            meta_pre_token_program_id: row.meta_pre_token_program_id,
            meta_pre_token_amount: row.meta_pre_token_amount,
            meta_pre_token_decimals: row.meta_pre_token_decimals,
            meta_pre_token_ui_amount: row.meta_pre_token_ui_amount,
            meta_pre_token_ui_amount_string: row.meta_pre_token_ui_amount_string,
            meta_post_token_balances_present: row.meta_post_token_balances_present,
            meta_post_token_account_index: row.meta_post_token_account_index,
            meta_post_token_mint: row.meta_post_token_mint,
            meta_post_token_owner: row.meta_post_token_owner,
            meta_post_token_program_id: row.meta_post_token_program_id,
            meta_post_token_amount: row.meta_post_token_amount,
            meta_post_token_decimals: row.meta_post_token_decimals,
            meta_post_token_ui_amount: row.meta_post_token_ui_amount,
            meta_post_token_ui_amount_string: row.meta_post_token_ui_amount_string,
            meta_rewards_present: row.meta_rewards_present,
            meta_reward_pubkey: row.meta_reward_pubkey,
            meta_reward_lamports: row.meta_reward_lamports,
            meta_reward_post_balance: row.meta_reward_post_balance,
            meta_reward_type: row.meta_reward_type,
            meta_reward_commission: row.meta_reward_commission,
            meta_loaded_addresses_writable: row.meta_loaded_addresses_writable,
            meta_loaded_addresses_readonly: row.meta_loaded_addresses_readonly,
        }),
{
    StoredAccountsTransactionRecord {
        tx_version: row.tx_version,
        tx_signatures: row.tx_signatures,
        tx_num_required_signatures: row.tx_num_required_signatures,
        tx_num_readonly_signed_accounts: row.tx_num_readonly_signed_accounts,
        tx_num_readonly_unsigned_accounts: row.tx_num_readonly_unsigned_accounts,
        tx_account_keys: row.tx_account_keys,
        tx_instructions_program_id_index: row.tx_instructions_program_id_index,
        meta_status_ok: row.meta_status_ok,
        meta_err: row.meta_err,
        meta_fee: row.meta_fee,
        meta_pre_balances: row.meta_pre_balances,
        meta_post_balances: row.meta_post_balances,
        meta_pre_token_balances_present: row.meta_pre_token_balances_present,
        meta_pre_token_account_index: row.meta_pre_token_account_index,
        meta_pre_token_mint: row.meta_pre_token_mint,
        meta_pre_token_owner: row.meta_pre_token_owner,
        meta_pre_token_program_id: row.meta_pre_token_program_id,
        meta_pre_token_amount: row.meta_pre_token_amount,
        meta_pre_token_decimals: row.meta_pre_token_decimals,
        meta_pre_token_ui_amount: row.meta_pre_token_ui_amount,
        meta_pre_token_ui_amount_string: row.meta_pre_token_ui_amount_string,
        meta_post_token_balances_present: row.meta_post_token_balances_present,
        meta_post_token_account_index: row.meta_post_token_account_index,
        meta_post_token_mint: row.meta_post_token_mint,
        meta_post_token_owner: row.meta_post_token_owner,
        meta_post_token_program_id: row.meta_post_token_program_id,
        meta_post_token_amount: row.meta_post_token_amount,
        meta_post_token_decimals: row.meta_post_token_decimals,
        meta_post_token_ui_amount: row.meta_post_token_ui_amount,
        meta_post_token_ui_amount_string: row.meta_post_token_ui_amount_string,
        meta_rewards_present: row.meta_rewards_present,
        meta_reward_pubkey: row.meta_reward_pubkey,
        meta_reward_lamports: row.meta_reward_lamports,
        meta_reward_post_balance: row.meta_reward_post_balance,
        meta_reward_type: row.meta_reward_type,
        meta_reward_commission: row.meta_reward_commission,
        meta_loaded_addresses_writable: row.meta_loaded_addresses_writable,
        meta_loaded_addresses_readonly: row.meta_loaded_addresses_readonly,
    }
}

/// The text of a signature.
pub fn map_block_signature_row(signature: &[u8; 64]) -> (r: String)
    ensures
        r@ == hashing::base58_text(signature@),
{
    hashing::base58_encode(signature.as_slice())
}

/// What is said of a transaction without a signature.
pub open spec fn missing_signature(slot: u64) -> Seq<char> {
    ("invalid full block transaction row for slot "@ + text::dec(slot as nat) + ": transaction is missing primary signature"@)
}

/// The first signature of a transaction, under which it is known.
pub fn primary_block_signature(tx_signatures: &[[u8; 64]], slot: u64) -> (r: Result<
    [u8; 64],
    ProcessingError,
>)
    ensures
        if tx_signatures@.len() == 0 {
            r matches Err(e) && e is Database && e.context() == missing_signature(slot)
        } else {
            r == Ok::<[u8; 64], ProcessingError>(tx_signatures@[0])
        },
{
    if tx_signatures.len() == 0 {
        let message = {
            let mut m = "invalid full block transaction row for slot ".to_owned();
            m.append(text::dec_string(slot as u64).as_str());
            m.append(": transaction is missing primary signature");
            m
        };
        return Err(ProcessingError::database_msg(message));
    }
    Ok(tx_signatures[0])
}

/// Makes a record of a transaction of the block of a slot. It is known under its first signature.
pub fn map_block_full_transaction_row<U>(row: BlockFullTransactionRow<U>, slot: u64) -> (r: Result<
    StoredTransactionRecord<U>,
    ProcessingError,
>)
    ensures
        if row.tx_signatures@.len() == 0 {
            r matches Err(e) && e is Database && e.context() == missing_signature(slot)
        } else {
            r == Ok::<StoredTransactionRecord<U>, ProcessingError>(
                StoredTransactionRecord {
                    signature: row.tx_signatures@[0],
                    slot,
                    slot_idx: row.slot_idx,
                    block_time: None,
                    is_vote: row.is_vote,
                    tx_version: row.tx_version,
                    tx_signatures: row.tx_signatures,
                    tx_num_required_signatures: row.tx_num_required_signatures,
                    tx_num_readonly_signed_accounts: row.tx_num_readonly_signed_accounts,
                    tx_num_readonly_unsigned_accounts: row.tx_num_readonly_unsigned_accounts,
                    tx_account_keys: row.tx_account_keys,
                    tx_recent_blockhash: row.tx_recent_blockhash,
                    tx_instructions_program_id_index: row.tx_instructions_program_id_index,
                    tx_instructions_accounts: row.tx_instructions_accounts,
                    tx_instructions_data: row.tx_instructions_data,
                    tx_address_table_lookups_present: row.tx_address_table_lookups_present,
                    tx_address_table_lookup_account_key: row.tx_address_table_lookup_account_key,
                    tx_address_table_lookup_writable_indexes: row.tx_address_table_lookup_writable_indexes,
                    tx_address_table_lookup_readonly_indexes: row.tx_address_table_lookup_readonly_indexes,
                    meta_status_ok: row.meta_status_ok,
                    meta_err: row.meta_err,
                    meta_fee: row.meta_fee,
                    meta_pre_balances: row.meta_pre_balances,
                    meta_post_balances: row.meta_post_balances,
                    meta_inner_instructions_present: row.meta_inner_instructions_present,
                    meta_inner_instructions_index: row.meta_inner_instructions_index,
                    meta_inner_instructions_program_id_index: row.meta_inner_instructions_program_id_index,
                    meta_inner_instructions_accounts: row.meta_inner_instructions_accounts,
                    meta_inner_instructions_data: row.meta_inner_instructions_data,
                    meta_inner_instructions_stack_height: row.meta_inner_instructions_stack_height,
                    meta_log_messages_present: row.meta_log_messages_present,
                    meta_log_messages: row.meta_log_messages,
                    meta_pre_token_balances_present: row.meta_pre_token_balances_present,
                    meta_pre_token_account_index: row.meta_pre_token_account_index,
                    meta_pre_token_mint: row.meta_pre_token_mint,
                    meta_pre_token_owner: row.meta_pre_token_owner,
                    meta_pre_token_program_id: row.meta_pre_token_program_id,
                    meta_pre_token_amount: row.meta_pre_token_amount,
                    meta_pre_token_decimals: row.meta_pre_token_decimals,
                    meta_pre_token_ui_amount: row.meta_pre_token_ui_amount,
                    meta_pre_token_ui_amount_string: row.meta_pre_token_ui_amount_string,
                    meta_post_token_balances_present: row.meta_post_token_balances_present,
                    meta_post_token_account_index: row.meta_post_token_account_index,
                    meta_post_token_mint: row.meta_post_token_mint,
                    meta_post_token_owner: row.meta_post_token_owner,
                    meta_post_token_program_id: row.meta_post_token_program_id,
                    meta_post_token_amount: row.meta_post_token_amount,
                    meta_post_token_decimals: row.meta_post_token_decimals,
                    meta_post_token_ui_amount: row.meta_post_token_ui_amount,
                    meta_post_token_ui_amount_string: row.meta_post_token_ui_amount_string,
                    meta_rewards_present: row.meta_rewards_present,
                    meta_reward_pubkey: row.meta_reward_pubkey,
                    meta_reward_lamports: row.meta_reward_lamports,
                    meta_reward_post_balance: row.meta_reward_post_balance,
                    meta_reward_type: row.meta_reward_type,
                    meta_reward_commission: row.meta_reward_commission,
                    meta_loaded_addresses_writable: row.meta_loaded_addresses_writable,
                    meta_loaded_addresses_readonly: row.meta_loaded_addresses_readonly,
                    meta_return_data_present: row.meta_return_data_present,
                    meta_return_data_program_id: row.meta_return_data_program_id,
                    meta_return_data_data: row.meta_return_data_data,
                    meta_compute_units_consumed: row.meta_compute_units_consumed,
                    meta_cost_units: row.meta_cost_units,
                },
            )
        },
{
    let signature = match primary_block_signature(row.tx_signatures.as_slice(), slot) {
        Ok(signature) => signature,
        Err(e) => return Err(e),
    };
    Ok(
        StoredTransactionRecord {
            signature,
            slot,
            slot_idx: row.slot_idx,
            block_time: None,
            is_vote: row.is_vote,
            tx_version: row.tx_version,
            tx_signatures: row.tx_signatures,
            tx_num_required_signatures: row.tx_num_required_signatures,
            tx_num_readonly_signed_accounts: row.tx_num_readonly_signed_accounts,
            tx_num_readonly_unsigned_accounts: row.tx_num_readonly_unsigned_accounts,
            tx_account_keys: row.tx_account_keys,
            tx_recent_blockhash: row.tx_recent_blockhash,
            tx_instructions_program_id_index: row.tx_instructions_program_id_index,
            tx_instructions_accounts: row.tx_instructions_accounts,
            tx_instructions_data: row.tx_instructions_data,
            tx_address_table_lookups_present: row.tx_address_table_lookups_present,
            tx_address_table_lookup_account_key: row.tx_address_table_lookup_account_key,
            tx_address_table_lookup_writable_indexes: row.tx_address_table_lookup_writable_indexes,
            tx_address_table_lookup_readonly_indexes: row.tx_address_table_lookup_readonly_indexes,
            meta_status_ok: row.meta_status_ok,
            meta_err: row.meta_err,
            meta_fee: row.meta_fee,
            meta_pre_balances: row.meta_pre_balances,
            meta_post_balances: row.meta_post_balances,
            meta_inner_instructions_present: row.meta_inner_instructions_present,
            meta_inner_instructions_index: row.meta_inner_instructions_index,
            meta_inner_instructions_program_id_index: row.meta_inner_instructions_program_id_index,
            meta_inner_instructions_accounts: row.meta_inner_instructions_accounts,
            meta_inner_instructions_data: row.meta_inner_instructions_data,
            meta_inner_instructions_stack_height: row.meta_inner_instructions_stack_height,
            meta_log_messages_present: row.meta_log_messages_present,
            meta_log_messages: row.meta_log_messages,
            meta_pre_token_balances_present: row.meta_pre_token_balances_present,
            meta_pre_token_account_index: row.meta_pre_token_account_index,
            meta_pre_token_mint: row.meta_pre_token_mint,
            meta_pre_token_owner: row.meta_pre_token_owner,
            meta_pre_token_program_id: row.meta_pre_token_program_id,
            meta_pre_token_amount: row.meta_pre_token_amount,
            meta_pre_token_decimals: row.meta_pre_token_decimals,
            meta_pre_token_ui_amount: row.meta_pre_token_ui_amount,
            meta_pre_token_ui_amount_string: row.meta_pre_token_ui_amount_string,
            meta_post_token_balances_present: row.meta_post_token_balances_present,
            meta_post_token_account_index: row.meta_post_token_account_index,
            meta_post_token_mint: row.meta_post_token_mint,
            meta_post_token_owner: row.meta_post_token_owner,
            meta_post_token_program_id: row.meta_post_token_program_id,
            meta_post_token_amount: row.meta_post_token_amount,
            meta_post_token_decimals: row.meta_post_token_decimals,
            meta_post_token_ui_amount: row.meta_post_token_ui_amount,
            meta_post_token_ui_amount_string: row.meta_post_token_ui_amount_string,
            meta_rewards_present: row.meta_rewards_present,
            meta_reward_pubkey: row.meta_reward_pubkey,
            meta_reward_lamports: row.meta_reward_lamports,
            meta_reward_post_balance: row.meta_reward_post_balance,
            meta_reward_type: row.meta_reward_type,
            meta_reward_commission: row.meta_reward_commission,
            meta_loaded_addresses_writable: row.meta_loaded_addresses_writable,
            meta_loaded_addresses_readonly: row.meta_loaded_addresses_readonly,
            meta_return_data_present: row.meta_return_data_present,
            meta_return_data_program_id: row.meta_return_data_program_id,
            meta_return_data_data: row.meta_return_data_data,
            meta_compute_units_consumed: row.meta_compute_units_consumed,
            meta_cost_units: row.meta_cost_units,
        },
    )
}

} // verus!
