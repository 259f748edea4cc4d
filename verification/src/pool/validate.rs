//! Validated transactions and the outcome of validation.
use crate::pool::identifier::{SenderId, TransactionId};
use crate::primitives::{Address, TxHash, U256};
use vstd::prelude::*;

verus! {

/// Where a transaction came from.
#[derive(Clone, Copy, Debug, PartialEq, Eq, Structural)]
pub enum TransactionOrigin {
    /// Submitted locally, e.g. over RPC.
    Local,
    /// Received from the network.
    External,
    /// Submitted privately; not propagated.
    Private,
}

impl TransactionOrigin {
    /// Whether the transaction originated locally.
    pub fn is_local(&self) -> (r: bool)
        ensures
            r == (*self == TransactionOrigin::Local),
    {
        match self {
            TransactionOrigin::Local => true,
            _ => false,
        }
    }
}

/// What the pool reads of a transaction.
#[derive(Clone, Copy, Debug, PartialEq, Eq, Structural)]
pub struct PooledTransaction {
    /// The transaction hash.
    pub hash: TxHash,
    /// The recovered sender address.
    pub sender: Address,
    /// The nonce.
    pub nonce: u64,
    /// The most it may consume: `max_fee_per_gas * gas_limit + value`.
    pub cost: U256,
    /// The EIP-1559 fee cap; the gas price for legacy transactions.
    pub max_fee_per_gas: u128,
    /// The EIP-1559 priority fee; `None` for legacy transactions.
    pub max_priority_fee_per_gas: Option<u128>,
    /// The gas limit.
    pub gas_limit: u64,
    /// The heap size of the transaction.
    pub size: usize,
    /// The EIP-2718 type byte.
    pub tx_type: u8,
    /// Whether the transaction creates a contract.
    pub is_create: bool,
}

/// The effective tip per gas at a base fee: `None` when the fee cap is
/// below the base fee, otherwise the fee above the base fee capped by the
/// priority fee.
pub open spec fn spec_effective_tip(tx: PooledTransaction, base_fee: u64) -> Option<u128> {
    if tx.max_fee_per_gas < base_fee {
        None
    } else {
        let fee = (tx.max_fee_per_gas - base_fee) as u128;
        match tx.max_priority_fee_per_gas {
            Some(p) => Some(if p < fee { p } else { fee }),
            None => Some(fee),
        }
    }
}

/// The effective tip is defined exactly when the fee cap covers the base
/// fee; it is then at most the fee cap above the base fee and at most the
/// priority fee, and equals one of the two.
pub proof fn lemma_effective_tip_is_min(tx: PooledTransaction, base_fee: u64)
    ensures
        spec_effective_tip(tx, base_fee) is None <==> tx.max_fee_per_gas < base_fee,
        tx.max_fee_per_gas >= base_fee ==> ({
            let tip = spec_effective_tip(tx, base_fee)->0;
            let above = tx.max_fee_per_gas - base_fee;
            &&& tip <= above
            &&& match tx.max_priority_fee_per_gas {
                Some(p) => tip <= p && (tip == p || tip == above),
                None => tip == above,
            }
        }),
{
}

impl PooledTransaction {
    /// The effective tip per gas at the given base fee.
    pub fn effective_tip_per_gas(&self, base_fee: u64) -> (r: Option<u128>)
        ensures
            r == spec_effective_tip(*self, base_fee),
            r is None <==> self.max_fee_per_gas < base_fee,
            r matches Some(tip) ==> tip <= self.max_fee_per_gas - base_fee && match self.max_priority_fee_per_gas {
                Some(p) => tip <= p && (tip == p || tip == self.max_fee_per_gas - base_fee),
                None => tip == self.max_fee_per_gas - base_fee,
            },
    {
        let base_fee = base_fee as u128;
        if self.max_fee_per_gas < base_fee {
            return None;
        }
        let fee = self.max_fee_per_gas - base_fee;
        match self.max_priority_fee_per_gas {
            Some(p) => Some(if p < fee { p } else { fee }),
            None => Some(fee),
        }
    }

    /// The priority fee for EIP-1559 transactions, the gas price otherwise.
    pub fn priority_fee_or_price(&self) -> (r: u128)
        ensures
            r == match self.max_priority_fee_per_gas {
                Some(p) => p,
                None => self.max_fee_per_gas,
            },
    {
        match self.max_priority_fee_per_gas {
            Some(p) => p,
            None => self.max_fee_per_gas,
        }
    }
}

/// A valid transaction in the pool.
///
/// `timestamp` stands for the instant the transaction was added: a larger
/// number is a later instant.
#[derive(Clone, Copy, Debug, PartialEq, Eq, Structural)]
pub struct ValidPoolTransaction {
    /// The transaction.
    pub transaction: PooledTransaction,
    /// The identifier for this transaction.
    pub transaction_id: TransactionId,
    /// Whether it is allowed to propagate the transaction.
    pub propagate: bool,
    /// When this was added to the pool.
    pub timestamp: u64,
    /// Where this transaction originated from.
    pub origin: TransactionOrigin,
    /// The length of the rlp encoded transaction.
    pub encoded_length: usize,
}

impl ValidPoolTransaction {
    /// Returns the hash of the transaction.
    pub fn hash(&self) -> (r: TxHash)
        ensures
            r == self.transaction.hash,
    {
        self.transaction.hash
    }

    /// Returns the type identifier of the transaction.
    pub fn tx_type(&self) -> (r: u8)
        ensures
            r == self.transaction.tx_type,
    {
        self.transaction.tx_type
    }

    /// Returns the address of the sender.
    pub fn sender(&self) -> (r: Address)
        ensures
            r == self.transaction.sender,
    {
        self.transaction.sender
    }

    /// Returns the internal identifier for the sender of this transaction.
    pub fn sender_id(&self) -> (r: SenderId)
        ensures
            r == self.transaction_id.sender,
    {
        self.transaction_id.sender
    }

    /// Returns the internal identifier for this transaction.
    pub fn id(&self) -> (r: TransactionId)
        ensures
            r == self.transaction_id,
    {
        self.transaction_id
    }

    /// Returns the nonce set for this transaction.
    pub fn nonce(&self) -> (r: u64)
        ensures
            r == self.transaction.nonce,
    {
        self.transaction.nonce
    }

    /// Returns the cost that this transaction is allowed to consume.
    pub fn cost(&self) -> (r: U256)
        ensures
            r == self.transaction.cost,
    {
        self.transaction.cost
    }

    /// Returns the EIP-1559 max fee per gas; the gas price for legacy
    /// transactions.
    pub fn max_fee_per_gas(&self) -> (r: u128)
        ensures
            r == self.transaction.max_fee_per_gas,
    {
        self.transaction.max_fee_per_gas
    }

    /// Returns the effective tip for this transaction.
    pub fn effective_tip_per_gas(&self, base_fee: u64) -> (r: Option<u128>)
        ensures
            r == spec_effective_tip(self.transaction, base_fee),
    {
        self.transaction.effective_tip_per_gas(base_fee)
    }

    /// Returns the max priority fee per gas if the transaction is an EIP-1559
    /// transaction, and otherwise returns the gas price.
    pub fn priority_fee_or_price(&self) -> (r: u128)
        ensures
            r == match self.transaction.max_priority_fee_per_gas {
                Some(p) => p,
                None => self.transaction.max_fee_per_gas,
            },
    {
        self.transaction.priority_fee_or_price()
    }

    /// Maximum amount of gas that the transaction is allowed to consume.
    pub fn gas_limit(&self) -> (r: u64)
        ensures
            r == self.transaction.gas_limit,
    {
        self.transaction.gas_limit
    }

    /// Whether the transaction originated locally.
    pub fn is_local(&self) -> (r: bool)
        ensures
            r == (self.origin == TransactionOrigin::Local),
    {
        self.origin.is_local()
    }

    /// The heap allocated size of this transaction.
    pub fn size(&self) -> (r: usize)
        ensures
            r == self.transaction.size,
    {
        self.transaction.size
    }
}

/// Why a transaction can never enter the pool.
#[derive(Clone, Copy, Debug, PartialEq, Eq, Structural)]
pub enum InvalidPoolTransactionError {
    /// The gas limit exceeds the block's: `(block gas limit, tx gas limit)`.
    ExceedsGasLimit(u64, u64),
    /// The init code of a create transaction is too large: `(size, max)`.
    ExceedsMaxInitCodeSize(usize, usize),
}

/// Ensures that the code size of a create transaction is not greater than
/// `max_init_code_size`.
pub fn ensure_max_init_code_size(transaction: &PooledTransaction, max_init_code_size: usize) -> (r:
    Result<(), InvalidPoolTransactionError>)
    ensures
        r == (if transaction.is_create && transaction.size > max_init_code_size {
            Err(
                InvalidPoolTransactionError::ExceedsMaxInitCodeSize(
                    transaction.size,
                    max_init_code_size,
                ),
            )
        } else {
            Ok(())
        }),
{
    if transaction.is_create && transaction.size > max_init_code_size {
        Err(InvalidPoolTransactionError::ExceedsMaxInitCodeSize(transaction.size, max_init_code_size))
    } else {
        Ok(())
    }
}

/// A valid transaction, with the blob sidecar that must be stored for it,
/// if any.
#[derive(Clone, Debug)]
pub enum ValidTransaction {
    /// A valid transaction without a sidecar.
    Valid(PooledTransaction),
    /// A valid EIP-4844 transaction whose sidecar is to be stored.
    ValidWithSidecar {
        /// The valid EIP-4844 transaction.
        transaction: PooledTransaction,
        /// The encoded sidecar of that transaction.
        sidecar: Vec<u8>,
    },
}

impl ValidTransaction {
    /// The wrapped transaction.
    pub fn transaction(&self) -> (r: &PooledTransaction)
        ensures
            *r == match self {
                ValidTransaction::Valid(t) => *t,
                ValidTransaction::ValidWithSidecar { transaction, .. } => *transaction,
            },
    {
        match self {
            ValidTransaction::Valid(t) => t,
            ValidTransaction::ValidWithSidecar { transaction, .. } => transaction,
        }
    }
}

/// The result of checking a transaction's validity.
#[derive(Clone, Debug)]
pub enum TransactionValidationOutcome {
    /// The transaction is currently valid and can be inserted into the pool.
    Valid {
        /// Balance of the sender at the current point.
        balance: U256,
        /// Current nonce of the sender.
        state_nonce: u64,
        /// The validated transaction.
        transaction: ValidTransaction,
        /// Whether to propagate the transaction to the network.
        propagate: bool,
    },
    /// The transaction can never become valid.
    Invalid(PooledTransaction, InvalidPoolTransactionError),
    /// Validation failed with an error, described by the message.
    Error(TxHash, String),
}

impl TransactionValidationOutcome {
    /// Returns the hash of the transaction.
    pub fn tx_hash(&self) -> (r: TxHash)
        ensures
            r == match self {
                TransactionValidationOutcome::Valid { transaction, .. } => match transaction {
                    ValidTransaction::Valid(t) => t.hash,
                    ValidTransaction::ValidWithSidecar { transaction, .. } => transaction.hash,
                },
                TransactionValidationOutcome::Invalid(t, _) => t.hash,
                TransactionValidationOutcome::Error(h, _) => *h,
            },
    {
        match self {
            TransactionValidationOutcome::Valid { transaction, .. } => transaction.transaction().hash,
            TransactionValidationOutcome::Invalid(t, _) => t.hash,
            TransactionValidationOutcome::Error(h, _) => *h,
        }
    }
}

/// Errors that can occur during transaction validation.
#[derive(Clone, Copy, Debug, PartialEq, Eq, Structural)]
pub enum TransactionValidatorError {
    /// Failed to communicate with the validation service.
    ValidationServiceUnreachable,
}

impl TransactionValidatorError {
    /// The error's message.
    pub fn message(&self) -> (r: &'static str)
        ensures
            r@ == "Validation service unreachable"@,
    {
        match self {
            TransactionValidatorError::ValidationServiceUnreachable => "Validation service unreachable",
        }
    }
}

} // verus!
