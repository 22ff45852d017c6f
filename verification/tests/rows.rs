//! Rows and the records that are made of them.
use superbank::clickhouse::rows::{
    map_block_accounts_transaction_row, map_block_full_transaction_row,
    map_block_metadata_base_row, map_block_metadata_row, map_block_signature_row,
    map_transaction_row, primary_block_signature, BlockAccountsTransactionRow,
    BlockFullTransactionRow, BlockMetadataBaseRow, BlockMetadataRow, TransactionRow,
};
use superbank::processing::ProcessingError;

#[test]
fn primary_block_signature_rejects_empty_signature_list() {
    let err = primary_block_signature(&[], 42).expect_err("expected error");

    match err {
        ProcessingError::Database { context } => {
            assert!(context.contains("slot 42"));
            assert!(context.contains("missing primary signature"));
        }
        other => panic!("unexpected error: {other:?}"),
    }
}

#[test]
fn primary_block_signature_returns_first_signature() {
    let signature = [9u8; 64];
    let resolved =
        primary_block_signature(&[signature, [8u8; 64]], 42).expect("primary signature");

    assert_eq!(resolved, signature);
}

fn transaction_row() -> TransactionRow<f64> {
    TransactionRow {
        signature: [2; 64],
        slot: 3,
        slot_idx: 4,
        block_time: Some(-6),
        is_vote: true,
        tx_version: Some(9),
        tx_signatures: vec![[11; 64]],
        tx_num_required_signatures: 12,
        tx_num_readonly_signed_accounts: 13,
        tx_num_readonly_unsigned_accounts: 14,
        tx_account_keys: vec![[16; 32]],
        tx_recent_blockhash: [17; 32],
        tx_instructions_program_id_index: vec![19],
        tx_instructions_accounts: vec![vec![22]],
        tx_instructions_data: vec![vec![25]],
        tx_address_table_lookups_present: true,
        tx_address_table_lookup_account_key: vec![[28; 32]],
        tx_address_table_lookup_writable_indexes: vec![vec![31]],
        tx_address_table_lookup_readonly_indexes: vec![vec![34]],
        meta_status_ok: true,
        meta_err: Some("t37".to_string()),
        meta_fee: 38,
        meta_pre_balances: vec![40],
        meta_post_balances: vec![42],
        meta_inner_instructions_present: true,
        meta_inner_instructions_index: vec![45],
        meta_inner_instructions_program_id_index: vec![vec![48]],
        meta_inner_instructions_accounts: vec![vec![vec![52]]],
        meta_inner_instructions_data: vec![vec![vec![56]]],
        meta_inner_instructions_stack_height: vec![vec![Some(60)]],
        meta_log_messages_present: true,
        meta_log_messages: vec!["t63".to_string()],
        meta_pre_token_balances_present: true,
        meta_pre_token_account_index: vec![66],
        meta_pre_token_mint: vec![[68; 32]],
        meta_pre_token_owner: vec![Some([71; 32])],
        meta_pre_token_program_id: vec![Some([74; 32])],
        meta_pre_token_amount: vec!["t76".to_string()],
        meta_pre_token_decimals: vec![78],
        meta_pre_token_ui_amount: vec![Some(81.5)],
        meta_pre_token_ui_amount_string: vec!["t83".to_string()],
        meta_post_token_balances_present: true,
        meta_post_token_account_index: vec![86],
        meta_post_token_mint: vec![[88; 32]],
        meta_post_token_owner: vec![Some([1; 32])],
        meta_post_token_program_id: vec![Some([4; 32])],
        meta_post_token_amount: vec!["t6".to_string()],
        meta_post_token_decimals: vec![8],
        meta_post_token_ui_amount: vec![Some(11.5)],
        meta_post_token_ui_amount_string: vec!["t13".to_string()],
        meta_rewards_present: true,
        meta_reward_pubkey: vec!["t16".to_string()],
        meta_reward_lamports: vec![-18],
        meta_reward_post_balance: vec![20],
        meta_reward_type: vec![Some("t23".to_string())],
        meta_reward_commission: vec![Some(26)],
        meta_loaded_addresses_writable: vec![[28; 32]],
        meta_loaded_addresses_readonly: vec![[30; 32]],
        meta_return_data_present: true,
        meta_return_data_program_id: Some([33; 32]),
        meta_return_data_data: Some(vec![36]),
        meta_compute_units_consumed: Some(38),
        meta_cost_units: Some(40),
    }
}

fn metadata_row() -> BlockMetadataRow {
    BlockMetadataRow {
        slot: 41,
        parent_slot: 42,
        blockhash: [43; 32],
        parent_blockhash: [44; 32],
        block_time: Some(-46),
        block_height: Some(48),
        executed_transaction_count: 49,
        entry_count: 50,
        rewards_present: true,
        rewards_pubkey: vec![[53; 32]],
        rewards_lamports: vec![-55],
        rewards_post_balance: vec![57],
        rewards_type: vec![Some("t60".to_string())],
        rewards_commission: vec![Some(63)],
        rewards_num_partitions: Some(65),
    }
}

fn metadata_base_row() -> BlockMetadataBaseRow {
    BlockMetadataBaseRow {
        slot: 66,
        parent_slot: 67,
        blockhash: [68; 32],
        parent_blockhash: [69; 32],
        block_time: Some(-71),
        block_height: Some(73),
        executed_transaction_count: 74,
        entry_count: 75,
        rewards_num_partitions: Some(77),
    }
}

fn accounts_row() -> BlockAccountsTransactionRow<f64> {
    BlockAccountsTransactionRow {
        tx_version: Some(79),
        tx_signatures: vec![[81; 64]],
        tx_num_required_signatures: 82,
        tx_num_readonly_signed_accounts: 83,
        tx_num_readonly_unsigned_accounts: 84,
        tx_account_keys: vec![[86; 32]],
        tx_instructions_program_id_index: vec![88],
        meta_status_ok: true,
        meta_err: Some("t1".to_string()),
        meta_fee: 2,
        meta_pre_balances: vec![4],
        meta_post_balances: vec![6],
        meta_pre_token_balances_present: true,
        meta_pre_token_account_index: vec![9],
        meta_pre_token_mint: vec![[11; 32]],
        meta_pre_token_owner: vec![Some([14; 32])],
        meta_pre_token_program_id: vec![Some([17; 32])],
        meta_pre_token_amount: vec!["t19".to_string()],
        meta_pre_token_decimals: vec![21],
        meta_pre_token_ui_amount: vec![Some(24.5)],
        meta_pre_token_ui_amount_string: vec!["t26".to_string()],
        meta_post_token_balances_present: true,
        meta_post_token_account_index: vec![29],
        meta_post_token_mint: vec![[31; 32]],
        meta_post_token_owner: vec![Some([34; 32])],
        meta_post_token_program_id: vec![Some([37; 32])],
        meta_post_token_amount: vec!["t39".to_string()],
        meta_post_token_decimals: vec![41],
        meta_post_token_ui_amount: vec![Some(44.5)],
        meta_post_token_ui_amount_string: vec!["t46".to_string()],
        meta_rewards_present: true,
        meta_reward_pubkey: vec!["t49".to_string()],
        meta_reward_lamports: vec![-51],
        meta_reward_post_balance: vec![53],
        meta_reward_type: vec![Some("t56".to_string())],
        meta_reward_commission: vec![Some(59)],
        meta_loaded_addresses_writable: vec![[61; 32]],
        meta_loaded_addresses_readonly: vec![[63; 32]],
    }
}

fn full_row() -> BlockFullTransactionRow<f64> {
    BlockFullTransactionRow {
        slot_idx: 64,
        is_vote: true,
        tx_version: Some(67),
        tx_signatures: vec![[69; 64]],
        tx_num_required_signatures: 70,
        tx_num_readonly_signed_accounts: 71,
        tx_num_readonly_unsigned_accounts: 72,
        tx_account_keys: vec![[74; 32]],
        tx_recent_blockhash: [75; 32],
        tx_config_priority_fee: Some(901),
        tx_config_compute_unit_limit: Some(902),
        tx_config_loaded_accounts_data_size_limit: Some(903),
        tx_config_heap_size: Some(904),
        tx_instructions_program_id_index: vec![77],
        tx_instructions_accounts: vec![vec![80]],
        tx_instructions_data: vec![vec![83]],
        tx_address_table_lookups_present: true,
        tx_address_table_lookup_account_key: vec![[86; 32]],
        tx_address_table_lookup_writable_indexes: vec![vec![89]],
        tx_address_table_lookup_readonly_indexes: vec![vec![2]],
        meta_status_ok: true,
        meta_err: Some("t5".to_string()),
        meta_fee: 6,
        meta_pre_balances: vec![8],
        meta_post_balances: vec![10],
        meta_inner_instructions_present: true,
        meta_inner_instructions_index: vec![13],
        meta_inner_instructions_program_id_index: vec![vec![16]],
        meta_inner_instructions_accounts: vec![vec![vec![20]]],
        meta_inner_instructions_data: vec![vec![vec![24]]],
        meta_inner_instructions_stack_height: vec![vec![Some(28)]],
        meta_log_messages_present: true,
        meta_log_messages: vec!["t31".to_string()],
        meta_pre_token_balances_present: true,
        meta_pre_token_account_index: vec![34],
        meta_pre_token_mint: vec![[36; 32]],
        meta_pre_token_owner: vec![Some([39; 32])],
        meta_pre_token_program_id: vec![Some([42; 32])],
        meta_pre_token_amount: vec!["t44".to_string()],
        meta_pre_token_decimals: vec![46],
        meta_pre_token_ui_amount: vec![Some(49.5)],
        meta_pre_token_ui_amount_string: vec!["t51".to_string()],
        meta_post_token_balances_present: true,
        meta_post_token_account_index: vec![54],
        meta_post_token_mint: vec![[56; 32]],
        meta_post_token_owner: vec![Some([59; 32])],
        meta_post_token_program_id: vec![Some([62; 32])],
        meta_post_token_amount: vec!["t64".to_string()],
        meta_post_token_decimals: vec![66],
        meta_post_token_ui_amount: vec![Some(69.5)],
        meta_post_token_ui_amount_string: vec!["t71".to_string()],
        meta_rewards_present: true,
        meta_reward_pubkey: vec!["t74".to_string()],
        meta_reward_lamports: vec![-76],
        meta_reward_post_balance: vec![78],
        meta_reward_type: vec![Some("t81".to_string())],
        meta_reward_commission: vec![Some(84)],
        meta_loaded_addresses_writable: vec![[86; 32]],
        meta_loaded_addresses_readonly: vec![[88; 32]],
        meta_return_data_present: true,
        meta_return_data_program_id: Some([1; 32]),
        meta_return_data_data: Some(vec![4]),
        meta_compute_units_consumed: Some(6),
        meta_cost_units: Some(8),
    }
}

/// The fields of a value, in order, as they are shown.
fn shown(value: String) -> String {
    value[value.find('{').unwrap()..].to_string()
}

#[test]
fn records_hold_the_fields_of_their_rows() {
    assert_eq!(
        shown(format!("{:?}", map_transaction_row(transaction_row()))),
        shown(format!("{:?}", transaction_row()))
    );
    assert_eq!(
        shown(format!("{:?}", map_block_metadata_row(metadata_row()))),
        shown(format!("{:?}", metadata_row()))
    );
    assert_eq!(
        shown(format!("{:?}", map_block_accounts_transaction_row(accounts_row()))),
        shown(format!("{:?}", accounts_row()))
    );
}

#[test]
fn blocks_without_their_rewards_have_none() {
    let row = metadata_base_row();
    let (slot, blockhash, partitions) = (row.slot, row.blockhash, row.rewards_num_partitions);
    let record = map_block_metadata_base_row(row);
    assert_eq!(record.slot, slot);
    assert_eq!(record.blockhash, blockhash);
    assert_eq!(record.rewards_num_partitions, partitions);
    assert!(!record.rewards_present);
    assert!(record.rewards_pubkey.is_empty());
    assert!(record.rewards_lamports.is_empty());
    assert!(record.rewards_post_balance.is_empty());
    assert!(record.rewards_type.is_empty());
    assert!(record.rewards_commission.is_empty());
}

#[test]
fn transactions_of_a_block_are_named_by_their_first_signature() {
    let mut row = full_row();
    row.tx_signatures = vec![[7; 64], [8; 64]];
    let record = map_block_full_transaction_row(row, 42).unwrap();
    assert_eq!(record.signature, [7; 64]);
    assert_eq!(record.slot, 42);
    assert_eq!(record.block_time, None);
    assert_eq!(record.tx_signatures, vec![[7; 64], [8; 64]]);
    let fields = format!("{:?}", full_row());
    let (counts, config) = (fields.find("tx_num_required"), fields.find("tx_config"));
    let kept = &fields[counts.unwrap()..config.unwrap()];
    let rest = &fields[fields.find("tx_instructions_program").unwrap()..];
    assert!(format!("{record:?}").ends_with(&format!("{kept}{rest}")));
    let mut row = full_row();
    row.tx_signatures = Vec::new();
    let error = map_block_full_transaction_row(row, 42).err().unwrap();
    assert_eq!(
        error.message(),
        "invalid full block transaction row for slot 42: transaction is missing primary signature"
    );
}

#[test]
fn signatures_of_a_block_are_written_in_base58() {
    assert_eq!(map_block_signature_row(&[0; 64]), "1".repeat(64));
    assert_eq!(map_block_signature_row(&[3; 64]), bs58::encode([3; 64]).into_string());
}
