use reth_pool_stages::primitives::{SealedHeader, H256, U256};
use reth_pool_stages::storage::chain_info::{BlockNumHash, ChainInfo, ChainInfoTracker};
use reth_pool_stages::storage::state::{
    account_balance, account_code_lookup, account_nonce, resolve_source, state_source_by_block_id,
    state_source_by_number_or_tag, Account, BlockId, BlockNumberOrTag, CodeLookup, StateError, StateSource,
};
use reth_pool_stages::storage::tables::{tables, TableType, NUM_TABLES};

fn header(number: u64) -> SealedHeader {
    SealedHeader {
        number,
        hash: H256(1, number as u128),
        parent_hash: H256(1, number as u128 + 7),
        state_root: H256(0, 0),
        difficulty: U256::zero(),
    }
}

#[test]
fn tables_list_names_and_kinds() {
    let t = tables();
    assert_eq!(t.len(), NUM_TABLES);
    assert_eq!(t[0], (TableType::Table, "CanonicalHeaders"));
    assert_eq!(t[12], (TableType::DupSort, "PlainStorageState"));
    assert_eq!(t[24], (TableType::Table, "SyncStageProgress"));
    let dupsort: Vec<&str> = t.iter().filter(|(k, _)| *k == TableType::DupSort).map(|(_, n)| *n).collect();
    assert_eq!(
        dupsort,
        vec!["PlainStorageState", "AccountChangeSet", "StorageChangeSet", "HashedStorage", "StoragesTrie"]
    );
}

#[test]
fn chain_info_tracks_head_safe_and_finalized() {
    let mut tracker = ChainInfoTracker::new(header(10));
    assert_eq!(tracker.chain_info(), ChainInfo { best_hash: H256(1, 10), best_number: 10 });
    assert_eq!(tracker.get_safe_header(), None);
    assert_eq!(tracker.get_finalized_num_hash(), None);
    assert_eq!(tracker.last_forkchoice_update_received_at(), None);

    tracker.set_canonical_head(header(12));
    assert_eq!(tracker.get_canonical_head(), header(12));
    assert_eq!(tracker.get_canonical_block_number(), 12);
    assert_eq!(tracker.get_canonical_num_hash(), BlockNumHash { number: 12, hash: H256(1, 12) });

    tracker.set_safe(header(8));
    tracker.set_finalized(header(5));
    assert_eq!(tracker.get_safe_num_hash(), Some(BlockNumHash { number: 8, hash: H256(1, 8) }));
    assert_eq!(tracker.get_finalized_header(), Some(header(5)));

    tracker.on_forkchoice_update_received(1234);
    assert_eq!(tracker.last_forkchoice_update_received_at(), Some(1234));
}

#[test]
fn state_sources() {
    assert_eq!(state_source_by_number_or_tag(BlockNumberOrTag::Earliest), StateSource::HistoryByNumber(0));
    assert_eq!(state_source_by_number_or_tag(BlockNumberOrTag::Number(9)), StateSource::HistoryByNumber(9));
    assert_eq!(state_source_by_number_or_tag(BlockNumberOrTag::Pending), StateSource::Pending);
    assert_eq!(state_source_by_block_id(BlockId::Hash(H256(3, 4))), StateSource::HistoryByHash(H256(3, 4)));
    assert_eq!(state_source_by_block_id(BlockId::Number(BlockNumberOrTag::Latest)), StateSource::Latest);
    assert_eq!(
        resolve_source(StateSource::Finalized, Some(H256(5, 5))),
        Ok(StateSource::HistoryByHash(H256(5, 5)))
    );
    assert_eq!(resolve_source(StateSource::Finalized, None), Err(StateError::FinalizedBlockNotFound));
    assert_eq!(resolve_source(StateSource::Safe, None), Err(StateError::SafeBlockNotFound));
    assert_eq!(resolve_source(StateSource::Latest, None), Ok(StateSource::Latest));
}

#[test]
fn account_queries() {
    let empty_code = H256(0xc5d2460186f7233c927e7db2dcc703c0, 0xe500b653ca82273b7bfad8045d85a470);
    let acc = Account { nonce: 3, balance: U256::from_u64(99), bytecode_hash: Some(H256(1, 2)) };
    assert_eq!(account_code_lookup(Some(acc)), CodeLookup::ByHash(H256(1, 2)));
    assert_eq!(
        account_code_lookup(Some(Account { bytecode_hash: Some(empty_code), ..acc })),
        CodeLookup::NoCode
    );
    assert_eq!(account_code_lookup(Some(Account { bytecode_hash: None, ..acc })), CodeLookup::NoCode);
    assert_eq!(account_code_lookup(None), CodeLookup::NoCode);
    assert_eq!(account_balance(Some(acc)), Some(U256::from_u64(99)));
    assert_eq!(account_nonce(Some(acc)), Some(3));
    assert_eq!(account_balance(None), None);
    assert_eq!(account_nonce(None), None);
}
