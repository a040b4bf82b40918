use vstd::prelude::*;

use crate::committee::EpochId;
use crate::messages::{
    ObjectRef, SignedTransactionEffects, SuiError, TransactionDigest, TransactionEffectsDigest,
};

verus! {

/// What changed the objects of a store.
#[derive(Debug, Clone, Copy, PartialEq, Eq, Structural)]
pub enum UpdateType {
    Transaction(TransactionEffectsDigest),
    Genesis,
}

/// Reads the effects of executed transactions.
pub trait EffectsStore {
    /// The effects of each transaction, in order; `None` for one not executed.
    fn get_effects(&self, transactions: &Vec<TransactionDigest>) -> Result<Vec<Option<SignedTransactionEffects>>, SuiError>;
}

/// The transaction that holds the lock on an object, and its epoch.
#[derive(Debug, Clone, Copy, PartialEq, Eq, Structural)]
pub struct LockDetails {
    pub epoch: EpochId,
    pub tx_digest: TransactionDigest,
}

/// The state of the lock on an object version.
#[derive(Debug, Clone, Copy, PartialEq, Eq)]
pub enum ObjectLockStatus {
    /// No transaction holds it.
    Initialized,
    /// A transaction holds it.
    LockedToTx { locked_by_tx: LockDetails },
    /// The lock is on another version of the object.
    LockedAtDifferentVersion { locked_ref: ObjectRef },
}

} // verus!
