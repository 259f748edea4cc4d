use reth_pool_stages::pool::config::PoolConfig;
use reth_pool_stages::pool::events::TransactionEvent;
use reth_pool_stages::pool::graph::{BestTransactionsSource, PoolError, TxPool};
use reth_pool_stages::pool::identifier::{SenderId, TransactionId};
use reth_pool_stages::pool::ordering::CoinbaseTipOrdering;
use reth_pool_stages::pool::parked::{ParkedOrder, ParkedPool};
use reth_pool_stages::pool::pending::PendingPool;
use reth_pool_stages::pool::state::SubPool;
use reth_pool_stages::pool::txpool::{AllTransactions, InsertErr, InsertOk, SenderInfo};
use reth_pool_stages::pool::update::Destination;
use reth_pool_stages::pool::validate::{PooledTransaction, TransactionOrigin, ValidPoolTransaction};
use reth_pool_stages::primitives::{Address, H256, U256};
use std::collections::HashMap;

/// The fee every mock transaction starts with: the protocol's minimum.
const START_FEE: u128 = 7;

/// An EIP-1559 transaction of a test, before it is validated.
#[derive(Clone, Debug)]
struct MockTx {
    hash: u128,
    sender: u128,
    nonce: u64,
    max_fee: u128,
    prio_fee: u128,
    gas_limit: u64,
}

impl MockTx {
    fn eip1559() -> MockTx {
        MockTx {
            hash: rand::random::<u128>(),
            sender: rand::random::<u128>(),
            nonce: 0,
            max_fee: START_FEE,
            prio_fee: START_FEE,
            gas_limit: 0,
        }
    }

    fn rng_hash(&self) -> MockTx {
        MockTx { hash: rand::random::<u128>(), ..self.clone() }
    }

    fn inc_price(&self) -> MockTx {
        self.inc_price_by(1)
    }

    fn inc_price_by(&self, v: u128) -> MockTx {
        MockTx { max_fee: self.max_fee + v, prio_fee: self.prio_fee + v, ..self.clone() }
    }

    fn decr_price(&self) -> MockTx {
        MockTx { max_fee: self.max_fee - 1, prio_fee: self.prio_fee - 1, ..self.clone() }
    }

    fn set_gas_price(&self, v: u128) -> MockTx {
        MockTx { max_fee: v, prio_fee: v, ..self.clone() }
    }

    fn inc_limit(&self) -> MockTx {
        MockTx { gas_limit: self.gas_limit + 1, ..self.clone() }
    }

    fn with_gas_limit(&self, v: u64) -> MockTx {
        MockTx { gas_limit: v, ..self.clone() }
    }

    fn inc_nonce(&self) -> MockTx {
        MockTx { nonce: self.nonce + 1, ..self.clone() }
    }

    fn next(&self) -> MockTx {
        MockTx { nonce: self.nonce + 1, ..self.rng_hash() }
    }

    fn prev(&self) -> MockTx {
        MockTx { nonce: self.nonce - 1, ..self.rng_hash() }
    }

    fn address(&self) -> Address {
        Address(self.sender, 0)
    }
}

/// Validates mock transactions: gives each sender an id and each
/// transaction a later timestamp.
#[derive(Default)]
struct Factory {
    ids: HashMap<u128, SenderId>,
    clock: u64,
}

impl Factory {
    fn sender_id(&mut self, tx: &MockTx) -> SenderId {
        let next = self.ids.len() as u64;
        *self.ids.entry(tx.sender).or_insert(next)
    }

    fn validated_with_origin(&mut self, origin: TransactionOrigin, tx: MockTx) -> ValidPoolTransaction {
        let sender = self.sender_id(&tx);
        self.clock += 1;
        ValidPoolTransaction {
            transaction: PooledTransaction {
                hash: H256(0, tx.hash),
                sender: tx.address(),
                nonce: tx.nonce,
                cost: U256::from_u128(tx.max_fee * tx.gas_limit as u128),
                max_fee_per_gas: tx.max_fee,
                max_priority_fee_per_gas: Some(tx.prio_fee),
                gas_limit: tx.gas_limit,
                size: 0,
                tx_type: 2,
                is_create: false,
            },
            transaction_id: TransactionId::new(sender, tx.nonce),
            propagate: false,
            timestamp: self.clock,
            origin,
            encoded_length: 0,
        }
    }

    fn validated(&mut self, tx: MockTx) -> ValidPoolTransaction {
        self.validated_with_origin(TransactionOrigin::External, tx)
    }
}

fn mock_pool() -> TxPool<CoinbaseTipOrdering> {
    TxPool::new(CoinbaseTipOrdering, PoolConfig::default_config())
}

fn subpool_of(pool: &AllTransactions, id: &TransactionId) -> SubPool {
    pool.get(id).unwrap().subpool
}

#[test]
fn test_enforce_parked_basefee() {
    let mut f = Factory::default();
    let mut pool = ParkedPool::new(ParkedOrder::BaseFee);
    let tx = f.validated(MockTx::eip1559().inc_price());
    pool.add_transaction(tx);

    assert!(pool.contains(&tx.id()));
    assert_eq!(pool.len(), 1);

    let removed = pool.enforce_basefee(u64::MAX);
    assert!(removed.is_empty());

    let removed = pool.enforce_basefee((tx.max_fee_per_gas() - 1) as u64);
    assert_eq!(removed.len(), 1);
    assert!(pool.is_empty());
}

#[test]
fn test_enforce_parked_basefee_descendant() {
    let mut f = Factory::default();
    let mut pool = ParkedPool::new(ParkedOrder::BaseFee);
    let t = MockTx::eip1559().inc_price_by(10);
    let root_tx = f.validated(t.clone());
    pool.add_transaction(root_tx);

    let descendant_tx = f.validated(t.inc_nonce().inc_price());
    pool.add_transaction(descendant_tx);

    assert!(pool.contains(&root_tx.id()));
    assert!(pool.contains(&descendant_tx.id()));
    assert_eq!(pool.len(), 2);

    let removed = pool.enforce_basefee(u64::MAX);
    assert!(removed.is_empty());

    {
        let mut pool2 = pool.clone();
        let removed = pool2.enforce_basefee(descendant_tx.max_fee_per_gas() as u64);
        assert_eq!(removed.len(), 1);
        assert_eq!(pool2.len(), 1);
        assert!(pool2.contains(&root_tx.id()));
        assert!(!pool2.contains(&descendant_tx.id()));
    }

    let removed = pool.enforce_basefee(root_tx.max_fee_per_gas() as u64);
    assert_eq!(removed.len(), 2);
    assert!(pool.is_empty());
}

#[test]
fn test_insert_pending() {
    let on_chain_balance = U256::max_value();
    let on_chain_nonce = 0;
    let mut f = Factory::default();
    let mut pool = AllTransactions::default_all();
    let tx = MockTx::eip1559().inc_price().inc_limit();
    let valid_tx = f.validated(tx);
    let InsertOk { updates, replaced_tx, move_to, state, .. } =
        pool.insert_tx(valid_tx, on_chain_balance, on_chain_nonce).unwrap();
    assert!(updates.is_empty());
    assert!(replaced_tx.is_none());
    assert!(state.no_nonce_gaps);
    assert!(state.enough_balance);
    assert_eq!(move_to, SubPool::Pending);

    let inserted = pool.get(&valid_tx.transaction_id).unwrap();
    assert_eq!(inserted.subpool, SubPool::Pending);
}

#[test]
fn test_simple_insert() {
    let on_chain_balance = U256::zero();
    let on_chain_nonce = 0;
    let mut f = Factory::default();
    let mut pool = AllTransactions::default_all();
    let tx = MockTx::eip1559().inc_price().inc_limit();
    let valid_tx = f.validated(tx.clone());
    let InsertOk { updates, replaced_tx, move_to, state, .. } =
        pool.insert_tx(valid_tx, on_chain_balance, on_chain_nonce).unwrap();
    assert!(updates.is_empty());
    assert!(replaced_tx.is_none());
    assert!(state.no_nonce_gaps);
    assert!(!state.enough_balance);
    assert_eq!(move_to, SubPool::Queued);

    assert_eq!(pool.len(), 1);
    assert!(pool.contains(&valid_tx.hash()));
    let inserted = pool.get(&valid_tx.id()).unwrap();
    assert!(inserted.state.enough_fee_cap_block || inserted.state.no_nonce_gaps);

    // the same transaction again
    let res = pool.insert_tx(valid_tx, on_chain_balance, on_chain_nonce);
    assert!(res.is_err());
    assert_eq!(pool.len(), 1);

    let valid_tx = f.validated(tx.next());
    let InsertOk { updates, replaced_tx, move_to, state, .. } =
        pool.insert_tx(valid_tx, on_chain_balance, on_chain_nonce).unwrap();

    assert!(updates.is_empty());
    assert!(replaced_tx.is_none());
    assert!(state.no_nonce_gaps);
    assert!(!state.enough_balance);
    assert_eq!(move_to, SubPool::Queued);

    assert!(pool.contains(&valid_tx.hash()));
    assert_eq!(pool.len(), 2);
    let inserted = pool.get(&valid_tx.id()).unwrap();
    assert!(inserted.state.enough_fee_cap_block || inserted.state.no_nonce_gaps);
}

#[test]
fn insert_already_imported() {
    let on_chain_balance = U256::zero();
    let on_chain_nonce = 0;
    let mut f = Factory::default();
    let mut pool = mock_pool();
    let tx = MockTx::eip1559().inc_price().inc_limit();
    let tx = f.validated(tx);
    pool.add_transaction(tx, on_chain_balance, on_chain_nonce).unwrap();
    match pool.add_transaction(tx, on_chain_balance, on_chain_nonce).unwrap_err() {
        PoolError::AlreadyImported(_) => {}
        _ => unreachable!(),
    }
}

#[test]
fn insert_replace() {
    let on_chain_balance = U256::zero();
    let on_chain_nonce = 0;
    let mut f = Factory::default();
    let mut pool = AllTransactions::default_all();
    let tx = MockTx::eip1559().inc_price().inc_limit();
    let first = f.validated(tx.clone());
    let _res = pool.insert_tx(first, on_chain_balance, on_chain_nonce);
    let replacement = f.validated(tx.rng_hash().inc_price());
    let InsertOk { updates, replaced_tx, .. } =
        pool.insert_tx(replacement, on_chain_balance, on_chain_nonce).unwrap();
    assert!(updates.is_empty());
    let replaced = replaced_tx.unwrap();
    assert_eq!(replaced.0.hash(), first.hash());

    assert!(!pool.contains(&first.hash()));
    assert!(pool.contains(&replacement.hash()));
    assert_eq!(pool.len(), 1);
}

#[test]
fn insert_replace_underpriced() {
    let on_chain_balance = U256::zero();
    let on_chain_nonce = 0;
    let mut f = Factory::default();
    let mut pool = AllTransactions::default_all();
    let tx = MockTx::eip1559().inc_price().inc_limit();
    let first = f.validated(tx.clone());
    let _res = pool.insert_tx(first, on_chain_balance, on_chain_nonce);
    let replacement = f.validated(tx.rng_hash().decr_price());
    let err = pool.insert_tx(replacement, on_chain_balance, on_chain_nonce).unwrap_err();
    assert!(matches!(err, InsertErr::Underpriced { .. }));
}

#[test]
fn insert_previous() {
    let on_chain_balance = U256::zero();
    let on_chain_nonce = 0;
    let mut f = Factory::default();
    let mut pool = AllTransactions::default_all();
    let tx = MockTx::eip1559().inc_nonce().inc_price().inc_limit();
    let first = f.validated(tx.clone());
    let _res = pool.insert_tx(first, on_chain_balance, on_chain_nonce);

    let first_in_pool = pool.get(&first.id()).unwrap();
    assert!(!first_in_pool.state.no_nonce_gaps);

    let prev = f.validated(tx.prev());
    let InsertOk { updates, replaced_tx, state, move_to, .. } =
        pool.insert_tx(prev, on_chain_balance, on_chain_nonce).unwrap();

    assert!(updates.is_empty());
    assert!(replaced_tx.is_none());
    assert!(state.no_nonce_gaps);
    assert_eq!(move_to, SubPool::Queued);

    let first_in_pool = pool.get(&first.id()).unwrap();
    assert!(first_in_pool.state.no_nonce_gaps);
}

#[test]
fn insert_with_updates() {
    let on_chain_balance = U256::from_u64(10_000);
    let on_chain_nonce = 0;
    let mut f = Factory::default();
    let mut pool = AllTransactions::default_all();
    let tx = MockTx::eip1559().inc_nonce().set_gas_price(100).inc_limit();
    let first = f.validated(tx.clone());
    let _res = pool.insert_tx(first, on_chain_balance, on_chain_nonce).unwrap();

    let first_in_pool = pool.get(&first.id()).unwrap();
    assert!(!first_in_pool.state.no_nonce_gaps);
    assert_eq!(SubPool::Queued, first_in_pool.subpool);

    let prev = f.validated(tx.prev());
    let InsertOk { updates, replaced_tx, state, move_to, .. } =
        pool.insert_tx(prev, on_chain_balance, on_chain_nonce).unwrap();

    assert_eq!(updates.len(), 1);
    assert!(replaced_tx.is_none());
    assert!(state.no_nonce_gaps);
    assert_eq!(move_to, SubPool::Pending);

    let first_in_pool = pool.get(&first.id()).unwrap();
    assert!(first_in_pool.state.no_nonce_gaps);
    assert_eq!(SubPool::Pending, first_in_pool.subpool);
}

#[test]
fn insert_previous_blocking() {
    let on_chain_balance = U256::from_u64(1_000);
    let on_chain_nonce = 0;
    let mut f = Factory::default();
    let mut pool = AllTransactions::default_all();
    pool.pending_basefee = pool.minimal_protocol_basefee.checked_add(1).unwrap();
    let tx = MockTx::eip1559().inc_nonce().inc_limit();
    let first = f.validated(tx.clone());

    let _res = pool.insert_tx(first, on_chain_balance, on_chain_nonce);

    let first_in_pool = pool.get(&first.id()).unwrap();

    assert!(tx.max_fee < pool.pending_basefee as u128);
    assert!(!first_in_pool.state.no_nonce_gaps);

    let prev = f.validated(tx.prev());
    let InsertOk { updates, replaced_tx, state, move_to, .. } =
        pool.insert_tx(prev, on_chain_balance, on_chain_nonce).unwrap();

    assert!(!state.enough_fee_cap_block);
    assert!(updates.is_empty());
    assert!(replaced_tx.is_none());
    assert!(state.no_nonce_gaps);
    assert_eq!(move_to, SubPool::BaseFee);

    let first_in_pool = pool.get(&first.id()).unwrap();
    assert!(first_in_pool.state.no_nonce_gaps);
}

#[test]
fn rejects_spammer() {
    let on_chain_balance = U256::from_u64(1_000);
    let on_chain_nonce = 0;
    let mut f = Factory::default();
    let mut pool = AllTransactions::default_all();

    let mut tx = MockTx::eip1559();
    for _ in 0..pool.max_account_slots {
        tx = tx.next();
        pool.insert_tx(f.validated(tx.clone()), on_chain_balance, on_chain_nonce).unwrap();
    }

    assert_eq!(pool.max_account_slots, pool.tx_count(f.sender_id(&tx)));

    let err = pool.insert_tx(f.validated(tx.next()), on_chain_balance, on_chain_nonce).unwrap_err();
    assert!(matches!(err, InsertErr::ExceededSenderTransactionsCapacity { .. }));
}

#[test]
fn allow_local_spamming() {
    let on_chain_balance = U256::from_u64(1_000);
    let on_chain_nonce = 0;
    let mut f = Factory::default();
    let mut pool = AllTransactions::default_all();

    let mut tx = MockTx::eip1559();
    for _ in 0..pool.max_account_slots {
        tx = tx.next();
        pool.insert_tx(
            f.validated_with_origin(TransactionOrigin::Local, tx.clone()),
            on_chain_balance,
            on_chain_nonce,
        )
        .unwrap();
    }

    assert_eq!(pool.max_account_slots, pool.tx_count(f.sender_id(&tx)));

    pool.insert_tx(
        f.validated_with_origin(TransactionOrigin::Local, tx.next()),
        on_chain_balance,
        on_chain_nonce,
    )
    .unwrap();
}

#[test]
fn reject_tx_over_gas_limit() {
    let on_chain_balance = U256::from_u64(1_000);
    let on_chain_nonce = 0;
    let mut f = Factory::default();
    let mut pool = AllTransactions::default_all();

    let tx = MockTx::eip1559().with_gas_limit(30_000_001);

    assert!(matches!(
        pool.insert_tx(f.validated(tx), on_chain_balance, on_chain_nonce),
        Err(InsertErr::TxGasLimitMoreThanAvailableBlockGas { .. })
    ));
}

#[test]
fn update_basefee_subpools() {
    let mut f = Factory::default();
    let mut pool = mock_pool();

    let tx = MockTx::eip1559().inc_price_by(10);
    let validated = f.validated(tx.clone());
    let id = validated.id();
    pool.add_transaction(validated, U256::from_u64(1_000), 0).unwrap();

    assert_eq!(pool.pending_pool.len(), 1);

    pool.update_basefee((tx.max_fee + 1) as u64);

    assert!(pool.pending_pool.is_empty());
    assert_eq!(pool.basefee_pool.len(), 1);

    assert_eq!(subpool_of(&pool.all_transactions, &id), SubPool::BaseFee)
}

#[test]
fn discard_nonce_too_low() {
    let mut f = Factory::default();
    let mut pool = mock_pool();

    let tx = MockTx::eip1559().inc_price_by(10);
    let validated = f.validated(tx.clone());
    let id = validated.id();
    pool.add_transaction(validated, U256::from_u64(1_000), 0).unwrap();

    let next = tx.next();
    let validated = f.validated(next.clone());
    pool.add_transaction(validated, U256::from_u64(1_000), 0).unwrap();

    assert_eq!(pool.pending_pool.len(), 2);

    let mut changed_senders = HashMap::new();
    changed_senders.insert(
        id.sender,
        SenderInfo { state_nonce: next.nonce, balance: U256::from_u64(1_000) },
    );
    let outcome = pool.update_accounts(changed_senders);
    assert_eq!(outcome.discarded.len(), 1);
    assert_eq!(pool.pending_pool.len(), 1);
}

#[test]
fn pool_errors_for_each_refusal() {
    let mut f = Factory::default();
    let mut pool = mock_pool();
    let balance = U256::from_u64(1_000_000);

    // fee cap below the protocol minimum
    let cheap = f.validated(MockTx::eip1559().decr_price());
    assert_eq!(
        pool.add_transaction(cheap, balance, 0).unwrap_err(),
        PoolError::FeeCapBelowMinimumProtocolFeeCap(cheap.hash(), 6)
    );

    // gas limit above the block's
    let heavy = f.validated(MockTx::eip1559().with_gas_limit(30_000_001));
    assert!(matches!(
        pool.add_transaction(heavy, balance, 0).unwrap_err(),
        PoolError::InvalidTransaction(h, _) if h == heavy.hash()
    ));

    // an underpriced replacement
    let tx = MockTx::eip1559().inc_price();
    let first = f.validated(tx.clone());
    pool.add_transaction(first, balance, 0).unwrap();
    let replacement = f.validated(tx.rng_hash());
    assert_eq!(
        pool.add_transaction(replacement, balance, 0).unwrap_err(),
        PoolError::ReplacementUnderpriced(first.hash())
    );

    // too many transactions of one sender
    let mut spam = MockTx::eip1559();
    for _ in 0..16 {
        spam = spam.next();
        pool.add_transaction(f.validated(spam.clone()), balance, 0).unwrap();
    }
    let over = f.validated(spam.next());
    assert_eq!(
        pool.add_transaction(over, balance, 0).unwrap_err(),
        PoolError::SpammerExceededCapacity(spam.address(), over.hash())
    );
}

#[test]
fn pool_size_is_sum_of_subpools() {
    let mut f = Factory::default();
    let mut pool = mock_pool();
    let balance = U256::from_u64(1_000);
    let a = MockTx::eip1559().inc_price_by(10);
    pool.add_transaction(f.validated(a.clone()), balance, 0).unwrap();
    // a gap: queued
    pool.add_transaction(f.validated(a.next().next()), balance, 0).unwrap();
    // another sender, pending
    pool.add_transaction(f.validated(MockTx::eip1559()), balance, 0).unwrap();
    let size = pool.size();
    assert_eq!(size.pending, 2);
    assert_eq!(size.queued, 1);
    assert_eq!(size.basefee, 0);
    assert_eq!(size.total, size.pending + size.queued + size.basefee);
    assert_eq!(pool.len(), 3);
    assert_eq!(pool.pending_transactions().len(), 2);
    assert_eq!(pool.queued_transactions().len(), 1);
}

#[test]
fn added_transaction_reports_promotions() {
    let mut f = Factory::default();
    let mut pool = mock_pool();
    let balance = U256::from_u64(10_000);
    let tx = MockTx::eip1559().inc_nonce().set_gas_price(100).inc_limit();
    let first = f.validated(tx.clone());
    match pool.add_transaction(first, balance, 0).unwrap() {
        reth_pool_stages::pool::graph::AddedTransaction::Parked { subpool, .. } => {
            assert_eq!(subpool, SubPool::Queued)
        }
        _ => panic!("expected a parked transaction"),
    }
    let prev = f.validated(tx.prev());
    match pool.add_transaction(prev, balance, 0).unwrap() {
        reth_pool_stages::pool::graph::AddedTransaction::Pending(p) => {
            assert_eq!(p.transaction, prev);
            assert_eq!(p.promoted, vec![first]);
            assert!(p.discarded.is_empty());
        }
        _ => panic!("expected a pending transaction"),
    }
    assert_eq!(pool.pending_pool.len(), 2);
    assert!(pool.queued_pool.is_empty());
}

#[test]
fn remove_transactions_and_descendants() {
    let mut f = Factory::default();
    let mut pool = mock_pool();
    let balance = U256::from_u64(1_000);
    let tx = MockTx::eip1559().inc_price();
    let t0 = f.validated(tx.clone());
    let t1 = f.validated(tx.next());
    pool.add_transaction(t0, balance, 0).unwrap();
    pool.add_transaction(t1, balance, 0).unwrap();
    assert!(pool.contains(&t0.hash()));
    assert_eq!(pool.get(&t1.hash()), Some(t1));
    assert_eq!(pool.get_all(vec![t1.hash(), H256(9, 9)]), vec![t1]);
    assert_eq!(pool.get_transactions_by_sender(t0.transaction_id.sender), vec![t0, t1]);

    let removed = pool.remove_transactions(vec![t0.hash(), H256(9, 9)]);
    assert_eq!(removed, vec![t0]);
    assert!(!pool.contains(&t0.hash()));
    assert!(pool.contains(&t1.hash()));
    assert_eq!(pool.len(), 1);
}

#[test]
fn canonical_state_change_mines_and_promotes() {
    let mut f = Factory::default();
    let mut pool = mock_pool();
    let tx = MockTx::eip1559().inc_price_by(10);
    let t0 = f.validated(tx.clone());
    let t1 = f.validated(tx.next());
    pool.add_transaction(t0, U256::zero(), 0).unwrap();
    pool.add_transaction(t1, U256::zero(), 0).unwrap();
    assert_eq!(pool.pending_pool.len(), 2);

    let info = reth_pool_stages::pool::graph::BlockInfo {
        last_seen_block_hash: H256(4, 4),
        last_seen_block_number: 4,
        pending_basefee: 7,
    };
    let mut changed = HashMap::new();
    changed.insert(t0.transaction_id.sender, SenderInfo { state_nonce: 1, balance: U256::zero() });
    let outcome = pool.on_canonical_state_change(info, vec![t0.hash()], changed);
    assert_eq!(outcome.block_hash, H256(4, 4));
    assert_eq!(outcome.mined, vec![t0.hash()]);
    assert!(!pool.contains(&t0.hash()));
    assert!(pool.contains(&t1.hash()));
    assert_eq!(pool.block_info(), info);
    assert_eq!(pool.pending_pool.len(), 1);
}

#[test]
fn discard_worst_respects_limits() {
    let mut f = Factory::default();
    let mut config = PoolConfig::default_config();
    config.pending_limit.max_txs = 1;
    let mut pool = TxPool::new(CoinbaseTipOrdering, config);
    let balance = U256::from_u64(1_000);
    let cheap = f.validated(MockTx::eip1559());
    let dear = f.validated(MockTx::eip1559().inc_price_by(5));
    pool.add_transaction(cheap, balance, 0).unwrap();
    pool.add_transaction(dear, balance, 0).unwrap();
    assert_eq!(pool.pending_pool.len(), 2);
    let removed = pool.discard_worst();
    assert_eq!(removed, vec![cheap]);
    assert_eq!(pool.pending_pool.len(), 1);
    assert!(pool.pending_pool.contains(&dear.id()));
    // the evicted transaction leaves the entire pool
    assert!(!pool.contains(&cheap.hash()));
    assert_eq!(pool.len(), 1);
    let size = pool.size();
    assert_eq!(size.total, size.pending + size.basefee + size.queued);
}

#[test]
fn discard_worst_evicts_later_transactions_of_the_sender() {
    let mut f = Factory::default();
    let mut config = PoolConfig::default_config();
    config.pending_limit.max_txs = 2;
    let mut pool = TxPool::new(CoinbaseTipOrdering, config);
    let balance = U256::from_u64(1_000);
    let low = MockTx::eip1559();
    let l0 = f.validated(low.clone());
    let l1 = f.validated(low.next().inc_price_by(20));
    let dear = f.validated(MockTx::eip1559().inc_price_by(5));
    pool.add_transaction(l0, balance, 0).unwrap();
    pool.add_transaction(l1, balance, 0).unwrap();
    pool.add_transaction(dear, balance, 0).unwrap();
    assert_eq!(pool.pending_pool.len(), 3);
    let removed = pool.discard_worst();
    // the worst, then the later transaction of its sender
    assert_eq!(removed, vec![l0, l1]);
    assert_eq!(pool.len(), 1);
    assert!(pool.contains(&dear.hash()));
}

#[test]
fn queued_pool_evicts_lowest_fee_first() {
    let mut f = Factory::default();
    let mut pool = ParkedPool::new(ParkedOrder::Queued);
    // older, lower fee
    let old_cheap = f.validated(MockTx::eip1559().inc_nonce());
    // younger, higher fee
    let young_dear = f.validated(MockTx::eip1559().inc_nonce().inc_price_by(10));
    pool.add_transaction(old_cheap);
    pool.add_transaction(young_dear);
    assert_eq!(pool.pop_worst(), Some(old_cheap));
    assert_eq!(pool.pop_worst(), Some(young_dear));

    // equal fees: the younger one goes first
    let a = f.validated(MockTx::eip1559().inc_nonce());
    let b = f.validated(MockTx::eip1559().inc_nonce());
    pool.add_transaction(a);
    pool.add_transaction(b);
    assert_eq!(pool.pop_worst(), Some(b));
}

#[test]
fn set_block_info_applies_the_base_fee() {
    let mut f = Factory::default();
    let mut pool = mock_pool();
    let tx = f.validated(MockTx::eip1559().inc_price_by(10));
    pool.add_transaction(tx, U256::from_u64(1_000), 0).unwrap();
    assert_eq!(pool.pending_pool.len(), 1);
    let info = reth_pool_stages::pool::graph::BlockInfo {
        last_seen_block_hash: H256(3, 3),
        last_seen_block_number: 3,
        pending_basefee: 18,
    };
    pool.set_block_info(info);
    assert_eq!(pool.block_info(), info);
    assert!(pool.pending_pool.is_empty());
    assert_eq!(pool.basefee_pool.len(), 1);
    // lowering it again brings the transaction back
    pool.set_block_info(reth_pool_stages::pool::graph::BlockInfo { pending_basefee: 7, ..info });
    assert_eq!(pool.pending_pool.len(), 1);
    assert!(pool.basefee_pool.is_empty());
}

#[test]
fn pending_pool_pop_worst_and_basefee() {
    let mut f = Factory::default();
    let mut pending = PendingPool::new(CoinbaseTipOrdering);
    let cheap = f.validated(MockTx::eip1559().inc_price());
    let dear = f.validated(MockTx::eip1559().inc_price_by(20));
    pending.add_transaction(cheap, 0);
    pending.add_transaction(dear, 0);
    assert_eq!(pending.len(), 2);
    // a base fee above the cheap one's fee cap removes it
    let removed = pending.update_base_fee(10);
    assert_eq!(removed, vec![cheap]);
    assert_eq!(pending.len(), 1);
    assert_eq!(pending.pop_worst(), Some(dear));
    assert!(pending.is_empty());
    assert_eq!(pending.pop_worst(), None);
}

#[test]
fn sender_info_is_recorded() {
    let mut f = Factory::default();
    let mut pool = mock_pool();
    let tx = f.validated(MockTx::eip1559());
    pool.add_transaction(tx, U256::from_u64(77), 0).unwrap();
    let sender = tx.transaction_id.sender;
    assert_eq!(
        pool.sender_info.get(&sender),
        Some(&SenderInfo { state_nonce: 0, balance: U256::from_u64(77) })
    );
    let mut changed = HashMap::new();
    changed.insert(sender, SenderInfo { state_nonce: 0, balance: U256::from_u64(88) });
    pool.update_accounts(changed);
    assert_eq!(
        pool.sender_info.get(&sender),
        Some(&SenderInfo { state_nonce: 0, balance: U256::from_u64(88) })
    );
    assert_eq!(pool.all_transactions.tx_counter.get(&sender), Some(&1));
}

#[test]
fn transaction_event_finality() {
    assert!(TransactionEvent::Mined(H256(1, 1)).is_final());
    assert!(TransactionEvent::Replaced(H256(2, 2)).is_final());
    assert!(TransactionEvent::Discarded.is_final());
    assert!(!TransactionEvent::Pending.is_final());
    assert!(!TransactionEvent::Queued.is_final());
    assert!(!TransactionEvent::Invalid.is_final());
    assert!(!TransactionEvent::Propagated(vec![]).is_final());
}

#[test]
fn recorded_moves_change_place() {
    let mut f = Factory::default();
    let mut pool = AllTransactions::default_all();
    let balance = U256::from_u64(10_000);
    let tx = MockTx::eip1559().inc_nonce().set_gas_price(100).inc_limit();
    pool.insert_tx(f.validated(tx.clone()), balance, 0).unwrap();
    let ok = pool.insert_tx(f.validated(tx.prev()), balance, 0).unwrap();
    assert_eq!(ok.updates.len(), 1);
    assert_eq!(ok.updates[0].current, SubPool::Queued);
    assert_eq!(ok.updates[0].destination, Destination::Pool(SubPool::Pending));
}

#[test]
fn pending_holds_ready_transactions() {
    let mut f = Factory::default();
    let mut pool = mock_pool();
    let balance = U256::from_u64(1_000);
    let a = MockTx::eip1559().inc_price_by(3);
    pool.add_transaction(f.validated(a.clone()), balance, 0).unwrap();
    pool.add_transaction(f.validated(a.next()), balance, 0).unwrap();
    pool.add_transaction(f.validated(a.next().next().next()), balance, 0).unwrap();
    for tx in pool.pending_transactions() {
        let rec = pool.all_transactions.get(&tx.transaction_id).unwrap();
        assert!(rec.state.is_pending());
        assert_eq!(rec.subpool, SubPool::Pending);
    }
    for tx in pool.queued_transactions() {
        let rec = pool.all_transactions.get(&tx.transaction_id).unwrap();
        assert!(!rec.state.is_pending());
    }
    assert_eq!(pool.pending_transactions().len(), 2);
}

#[test]
fn sender_counter_drops_emptied_senders() {
    let mut f = Factory::default();
    let mut pool = mock_pool();
    let tx = MockTx::eip1559();
    let t0 = f.validated(tx.clone());
    let t1 = f.validated(tx.next());
    pool.add_transaction(t0, U256::from_u64(1_000), 0).unwrap();
    pool.add_transaction(t1, U256::from_u64(1_000), 0).unwrap();
    let sender = t0.transaction_id.sender;
    assert_eq!(pool.all_transactions.tx_counter.get(&sender), Some(&2));
    pool.remove_transactions(vec![t1.hash()]);
    assert_eq!(pool.all_transactions.tx_counter.get(&sender), Some(&1));
    pool.remove_transactions(vec![t0.hash()]);
    assert_eq!(pool.all_transactions.tx_counter.get(&sender), None);
    assert_eq!(pool.all_transactions.tx_count(sender), 0);
}

#[test]
fn best_transactions_source_by_base_fee() {
    let mut f = Factory::default();
    let mut pool = mock_pool();
    let parked = f.validated(MockTx::eip1559().inc_price_by(10));
    let ready = f.validated(MockTx::eip1559().inc_price_by(20));
    pool.add_transaction(parked, U256::from_u64(1_000), 0).unwrap();
    pool.add_transaction(ready, U256::from_u64(1_000), 0).unwrap();
    let info = reth_pool_stages::pool::graph::BlockInfo {
        last_seen_block_hash: H256(1, 1),
        last_seen_block_number: 1,
        pending_basefee: 18,
    };
    pool.set_block_info(info);
    assert_eq!(pool.basefee_pool.len(), 1);
    assert!(matches!(pool.best_transactions_with_base_fee(18), BestTransactionsSource::Pending));
    assert!(matches!(pool.best_transactions_with_base_fee(20), BestTransactionsSource::PendingWithBaseFee(20)));
    match pool.best_transactions_with_base_fee(10) {
        BestTransactionsSource::PendingWithUnlocked { unlocked, base_fee } => {
            assert_eq!(unlocked, vec![parked]);
            assert_eq!(base_fee, 18);
        }
        _ => panic!("expected unlocked transactions"),
    }
    match pool.best_transactions_with_base_fee(17) {
        BestTransactionsSource::PendingWithUnlocked { unlocked, .. } => assert_eq!(unlocked, vec![parked]),
        _ => panic!("expected unlocked transactions"),
    }
}
