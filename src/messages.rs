use std::collections::BTreeMap;

use vstd::prelude::*;

use crate::committee::{AuthorityName, EpochId, StakeUnit};

verus! {

pub type TransactionDigest = u64;

pub type TransactionEffectsDigest = u64;

pub type ObjectId = u64;

pub type SequenceNumber = u64;

pub type ObjectDigest = u64;

/// An object at one version: id, version and content digest.
pub type ObjectRef = (ObjectId, SequenceNumber, ObjectDigest);

/// One authority's signature, made in `epoch`.
#[derive(Clone, Copy, Debug, PartialEq, Eq, Structural)]
pub struct AuthoritySignInfo {
    pub epoch: EpochId,
    pub authority: AuthorityName,
}

/// A transaction whose sender signature has already been checked.
#[derive(Clone, Copy, Debug, PartialEq, Eq, Structural)]
pub struct VerifiedTransaction {
    pub digest: TransactionDigest,
}

/// A transaction together with one authority's signature.
#[derive(Clone, Copy, Debug, PartialEq, Eq, Structural)]
pub struct SignedTransaction {
    pub transaction: VerifiedTransaction,
    pub auth_sig: AuthoritySignInfo,
}

/// A transaction with the signatures of a quorum of stake, formed in `epoch`.
#[derive(Clone, Debug)]
pub struct CertifiedTransaction {
    pub transaction: VerifiedTransaction,
    pub epoch: EpochId,
    pub signatures: Vec<AuthoritySignInfo>,
}

/// What executing a transaction did, identified by its digest.
#[derive(Clone, Copy, Debug, PartialEq, Eq, Structural)]
pub struct TransactionEffects {
    pub transaction_digest: TransactionDigest,
    pub digest: TransactionEffectsDigest,
}

/// Effects signed by one authority; the signature's epoch is the effects' epoch.
#[derive(Clone, Copy, Debug, PartialEq, Eq, Structural)]
pub struct SignedTransactionEffects {
    pub effects: TransactionEffects,
    pub auth_sig: AuthoritySignInfo,
}

/// Effects with the signatures of a quorum of stake.
#[derive(Clone, Debug)]
pub struct CertifiedTransactionEffects {
    pub effects: TransactionEffects,
    pub epoch: EpochId,
    pub signatures: Vec<AuthoritySignInfo>,
}

/// What an authority answers to a transaction.
#[derive(Debug)]
pub struct TransactionInfoResponse {
    pub signed_transaction: Option<SignedTransaction>,
    pub certified_transaction: Option<CertifiedTransaction>,
    pub signed_effects: Option<SignedTransactionEffects>,
}

/// What an authority answers to a request for a transaction and its effects.
#[derive(Debug)]
pub struct TransactionAndEffectsInfoResponse {
    pub certified_transaction: Option<CertifiedTransaction>,
    pub signed_effects: Option<SignedTransactionEffects>,
}

/// What an authority answers to a certificate.
#[derive(Clone, Copy, Debug)]
pub struct HandleCertificateResponse {
    pub signed_effects: SignedTransactionEffects,
}

/// The authorities that reported a lock held by one other transaction (the key it is stored
/// under), the objects they named, and their stake.
#[derive(Debug)]
pub struct ConflictingTransaction {
    pub lock_records: Vec<(AuthorityName, ObjectRef)>,
    pub total_stake: StakeUnit,
}

/// Errors of an authority, and of the aggregation over all of them.
#[allow(inconsistent_fields)]
#[derive(Debug)]
pub enum SuiError {
    /// No answer came in time.
    TimeoutError,
    /// An input object is locked by `pending_transaction`.
    ObjectLockConflict { obj_ref: ObjectRef, pending_transaction: TransactionDigest },
    /// An answer with neither a signature nor a certificate of the expected epoch.
    UnexpectedResultFromValidatorHandleTransaction,
    /// Any other failure of one authority.
    GenericAuthorityError { error: String },
    /// A single-answer request was given no authority to ask.
    EmptyAuthorityList,
    /// An authority that should know a transaction did not return it.
    ByzantineAuthoritySuspicion { authority: AuthorityName },
    /// The transaction is not known.
    TransactionNotFound { digest: TransactionDigest },
    /// An answer to a committee request that holds no committee.
    EmptyCommitteeInfo,
    /// The driver's task queue could not take a task.
    QuorumDriverCommunicationError { error: String },
    /// Too much stake failed to sign the transaction for a certificate to form.
    QuorumFailedToProcessTransaction {
        good_stake: StakeUnit,
        errors: Vec<SuiError>,
        conflicting_tx_digests: BTreeMap<TransactionDigest, ConflictingTransaction>,
    },
    /// No effects gathered a quorum of stake.
    QuorumFailedToExecuteCertificate { errors: Vec<SuiError> },
    /// Certification failed with lock conflicts; a conflicting transaction may have been retried.
    QuorumFailedToProcessTransactionWithConflictingTransactions {
        conflicting_txes: BTreeMap<TransactionDigest, ConflictingTransaction>,
        retried_tx_digest: Option<TransactionDigest>,
        retried_tx_success: Option<bool>,
    },
    /// Every authority asked for a single answer failed.
    TooManyIncorrectAuthorities { errors: Vec<(AuthorityName, SuiError)>, action: String },
}

/// A copy of a list of signatures.
pub fn copy_signatures(v: &Vec<AuthoritySignInfo>) -> (r: Vec<AuthoritySignInfo>)
    ensures
        r@ == v@,
{
    let mut r: Vec<AuthoritySignInfo> = Vec::new();
    let mut i: usize = 0;
    while i < v.len()
        invariant
            0 <= i <= v.len(),
            r@ == v@.take(i as int),
        decreases v.len() - i,
    {
        r.push(v[i]);
        assert(v@.take(i as int + 1) == v@.take(i as int).push(v@[i as int]));
        i = i + 1;
    }
    assert(v@.take(i as int) == v@);
    r
}

} // verus!
