//! Which state a request is answered from, and what an account's state
//! says.
use crate::primitives::{BlockNumber, H256, U256};
use vstd::prelude::*;

verus! {

/// The hash of empty bytecode: keccak256 of no bytes.
pub open spec fn keccak_empty() -> H256 {
    H256(0xc5d2460186f7233c927e7db2dcc703c0, 0xe500b653ca82273b7bfad8045d85a470)
}

/// An account's state.
#[derive(Clone, Copy, Debug, PartialEq, Eq, Structural)]
pub struct Account {
    /// The account's nonce.
    pub nonce: u64,
    /// The account's balance.
    pub balance: U256,
    /// The hash of the account's bytecode, if it has any.
    pub bytecode_hash: Option<H256>,
}

/// A block named by number or by tag.
#[derive(Clone, Copy, Debug, PartialEq, Eq, Structural)]
pub enum BlockNumberOrTag {
    /// The latest block.
    Latest,
    /// The finalized block.
    Finalized,
    /// The safe block.
    Safe,
    /// The genesis block.
    Earliest,
    /// The pending block.
    Pending,
    /// The block with this number.
    Number(BlockNumber),
}

/// A block named by number, tag or hash.
#[derive(Clone, Copy, Debug, PartialEq, Eq, Structural)]
pub enum BlockId {
    /// By number or tag.
    Number(BlockNumberOrTag),
    /// By hash.
    Hash(H256),
}

/// Where a state is read from.
#[derive(Clone, Copy, Debug, PartialEq, Eq, Structural)]
pub enum StateSource {
    /// The latest state.
    Latest,
    /// The state at the block with this number.
    HistoryByNumber(BlockNumber),
    /// The state at the block with this hash.
    HistoryByHash(H256),
    /// The pending state.
    Pending,
    /// The state at the finalized block, whose hash must be looked up.
    Finalized,
    /// The state at the safe block, whose hash must be looked up.
    Safe,
}

/// Why a state could not be found.
#[derive(Clone, Copy, Debug, PartialEq, Eq, Structural)]
pub enum StateError {
    /// There is no finalized block.
    FinalizedBlockNotFound,
    /// There is no safe block.
    SafeBlockNotFound,
}

/// What to look up for an account's code.
#[derive(Clone, Copy, Debug, PartialEq, Eq, Structural)]
pub enum CodeLookup {
    /// The account has no code.
    NoCode,
    /// The account's code has this hash.
    ByHash(H256),
}

/// Where the state at a block number or tag is read from.
pub fn state_source_by_number_or_tag(number_or_tag: BlockNumberOrTag) -> (r: StateSource)
    ensures
        r == match number_or_tag {
            BlockNumberOrTag::Latest => StateSource::Latest,
            BlockNumberOrTag::Finalized => StateSource::Finalized,
            BlockNumberOrTag::Safe => StateSource::Safe,
            BlockNumberOrTag::Earliest => StateSource::HistoryByNumber(0),
            BlockNumberOrTag::Pending => StateSource::Pending,
            BlockNumberOrTag::Number(n) => StateSource::HistoryByNumber(n),
        },
{
    match number_or_tag {
        BlockNumberOrTag::Latest => StateSource::Latest,
        BlockNumberOrTag::Finalized => StateSource::Finalized,
        BlockNumberOrTag::Safe => StateSource::Safe,
        BlockNumberOrTag::Earliest => StateSource::HistoryByNumber(0),
        BlockNumberOrTag::Pending => StateSource::Pending,
        BlockNumberOrTag::Number(n) => StateSource::HistoryByNumber(n),
    }
}

/// Where the state at a block is read from.
pub fn state_source_by_block_id(block_id: BlockId) -> (r: StateSource)
    ensures
        r == match block_id {
            BlockId::Number(t) => match t {
                BlockNumberOrTag::Latest => StateSource::Latest,
                BlockNumberOrTag::Finalized => StateSource::Finalized,
                BlockNumberOrTag::Safe => StateSource::Safe,
                BlockNumberOrTag::Earliest => StateSource::HistoryByNumber(0),
                BlockNumberOrTag::Pending => StateSource::Pending,
                BlockNumberOrTag::Number(n) => StateSource::HistoryByNumber(n),
            },
            BlockId::Hash(h) => StateSource::HistoryByHash(h),
        },
{
    match block_id {
        BlockId::Number(t) => state_source_by_number_or_tag(t),
        BlockId::Hash(h) => StateSource::HistoryByHash(h),
    }
}

/// Resolves the finalized or safe source with the looked-up hash of that
/// block; other sources stay as they are.
pub fn resolve_source(source: StateSource, hash: Option<H256>) -> (r: Result<StateSource, StateError>)
    ensures
        r == match source {
            StateSource::Finalized => match hash {
                Some(h) => Ok(StateSource::HistoryByHash(h)),
                None => Err(StateError::FinalizedBlockNotFound),
            },
            StateSource::Safe => match hash {
                Some(h) => Ok(StateSource::HistoryByHash(h)),
                None => Err(StateError::SafeBlockNotFound),
            },
            _ => Ok(source),
        },
{
    match source {
        StateSource::Finalized => match hash {
            Some(h) => Ok(StateSource::HistoryByHash(h)),
            None => Err(StateError::FinalizedBlockNotFound),
        },
        StateSource::Safe => match hash {
            Some(h) => Ok(StateSource::HistoryByHash(h)),
            None => Err(StateError::SafeBlockNotFound),
        },
        _ => Ok(source),
    }
}

/// What to look up for the code of an account: nothing for a missing
/// account, one without a code hash or one with the empty code's hash;
/// else its code hash.
pub fn account_code_lookup(account: Option<Account>) -> (r: CodeLookup)
    ensures
        r == match account {
            Some(acc) => match acc.bytecode_hash {
                Some(h) => if h == keccak_empty() { CodeLookup::NoCode } else { CodeLookup::ByHash(h) },
                None => CodeLookup::NoCode,
            },
            None => CodeLookup::NoCode,
        },
{
    match account {
        Some(acc) => match acc.bytecode_hash {
            Some(h) => {
                if h.0 == 0xc5d2460186f7233c927e7db2dcc703c0 && h.1 == 0xe500b653ca82273b7bfad8045d85a470 {
                    CodeLookup::NoCode
                } else {
                    CodeLookup::ByHash(h)
                }
            },
            None => CodeLookup::NoCode,
        },
        None => CodeLookup::NoCode,
    }
}

/// The balance of an account, if it exists.
pub fn account_balance(account: Option<Account>) -> (r: Option<U256>)
    ensures
        r == match account {
            Some(acc) => Some(acc.balance),
            None => None::<U256>,
        },
{
    match account {
        Some(acc) => Some(acc.balance),
        None => None,
    }
}

/// The nonce of an account, if it exists.
pub fn account_nonce(account: Option<Account>) -> (r: Option<u64>)
    ensures
        r == match account {
            Some(acc) => Some(acc.nonce),
            None => None::<u64>,
        },
{
    match account {
        Some(acc) => Some(acc.nonce),
        None => None,
    }
}

} // verus!
