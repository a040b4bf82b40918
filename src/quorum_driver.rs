use std::collections::BTreeMap;

use vstd::prelude::*;

use crate::aggregation::{authorities_distinct, Arrival};
use crate::authority_aggregator::{
    cert_failure, cert_model, conflict_model, conflicts_model, effects_responses_checked,
    cert_backed, opt_cert_model, sig_stake, signers_distinct, tx_failure, tx_responses_checked,
    AuthorityAggregator, CertModel, ConflictModel, TxStateModel,
};
use crate::committee::{quorum_of, validity_of, AuthorityName, Committee, EpochId, StakeUnit};
use crate::effects_map::cert_view;
use crate::messages::{
    CertifiedTransaction, CertifiedTransactionEffects, ConflictingTransaction,
    HandleCertificateResponse, ObjectRef, SignedTransaction, SuiError, TransactionDigest,
    TransactionInfoResponse, VerifiedTransaction,
};

verus! {

/// Capacity of the queue of pending tasks.
pub const TASK_QUEUE_SIZE: usize = 10000;

/// Capacity of the channel that streams finalized effects to subscribers.
pub const EFFECTS_QUEUE_SIZE: usize = 1000;

/// Retries of a transaction before the driver gives up on it.
pub const TX_MAX_RETRY_TIMES: u8 = 10;

/// The delay before the first retry, in milliseconds; each later retry waits twice as long.
pub const BASE_RETRY_DELAY_MS: u64 = 200;

/// A transaction on its way to finality: its certificate once formed, how often it was retried,
/// and the time (in milliseconds) before which it is not tried again.
#[derive(Debug)]
pub struct QuorumDriverTask {
    pub transaction: VerifiedTransaction,
    pub tx_cert: Option<CertifiedTransaction>,
    pub retry_times: u8,
    pub next_retry_after: u64,
}

/// A task as plain values.
pub type TaskModel = (VerifiedTransaction, Option<CertModel>, u8, u64);

pub open spec fn task_model(t: QuorumDriverTask) -> TaskModel {
    (t.transaction, opt_cert_model(t.tx_cert), t.retry_times, t.next_retry_after)
}

/// A certificate with the certified effects of its execution.
#[derive(Clone, Debug)]
pub struct QuorumDriverResponse {
    pub tx_cert: CertifiedTransaction,
    pub effects_cert: CertifiedTransactionEffects,
}

/// Terminal failures of the driver.
#[derive(Debug)]
pub enum QuorumDriverError {
    /// Every attempt failed; `total_attempts` counts them (at most 255).
    FailedAfterMaximumAttempts { total_attempts: u8 },
    /// Input objects are locked by other transactions; one of them may have been retried.
    ObjectsDoubleUsed {
        conflicting_txes: BTreeMap<TransactionDigest, ConflictingTransaction>,
        retried_tx: Option<TransactionDigest>,
        retried_tx_success: Option<bool>,
    },
}

/// What the driver does next with a task.
#[derive(Debug)]
pub enum TaskAction {
    /// Run the task's certificate through the effects quorum.
    ProcessCertificate(QuorumDriverTask),
    /// Put the task back on the queue; it is due at its `next_retry_after`.
    Requeue(QuorumDriverTask),
    /// Deliver a terminal failure to the waiter of the transaction.
    NotifyFailure(QuorumDriverError),
    /// Deliver the certificate and certified effects to the waiter and to subscribers.
    NotifySuccess(QuorumDriverResponse),
}

/// What to do about transactions reported as holding the locks a transaction needs.
#[derive(Debug)]
pub enum ConflictResolution {
    /// None was reported.
    NoConflicts,
    /// The transaction and its strongest rival both have a validity threshold of stake: a
    /// double spend, so neither is retried.
    Equivocation,
    /// The transaction has a validity threshold of stake: retrying it later is enough.
    OriginalLikelyToSucceed,
    /// The strongest rival has less than a validity threshold of stake.
    InsufficientEvidence,
    /// Execute the strongest rival, asking the authorities that reported it.
    RetryConflicting { tx_digest: TransactionDigest, validators: Vec<AuthorityName> },
}

/// How to retry a conflicting transaction, from what its reporters returned.
#[derive(Debug)]
pub enum ConflictAttempt {
    /// It is already certified: run the certificate through the effects quorum.
    ProcessCertificate(CertifiedTransaction),
    /// It is only signed: certify and execute it.
    ExecuteTransaction(VerifiedTransaction),
}

/// The outcome of certification, once sorted.
#[derive(Debug)]
pub enum CertificationFailure {
    /// Authorities reported conflicting transactions; `resolution` says what to do.
    Conflicts { conflicting_txes: BTreeMap<TransactionDigest, ConflictingTransaction>, resolution: ConflictResolution },
    /// Any other failure, unchanged.
    Other(SuiError),
}

pub open spec fn pow2(k: nat) -> nat
    decreases k,
{
    if k == 0 {
        1
    } else {
        2 * pow2((k - 1) as nat)
    }
}

/// The wait before retry number `k + 1`: 200 ms times 2 to the `k`, clamped to `u64::MAX`.
pub open spec fn backoff_spec(k: nat) -> int {
    if BASE_RETRY_DELAY_MS * pow2(k) > u64::MAX {
        u64::MAX as int
    } else {
        BASE_RETRY_DELAY_MS * pow2(k)
    }
}

pub open spec fn sat_time(now: u64, delay: int) -> u64 {
    if now + delay > u64::MAX {
        u64::MAX
    } else {
        (now + delay) as u64
    }
}

/// The delay before the retry that follows attempt `retry_times + 1`.
pub fn backoff_delay_ms(retry_times: u8) -> (r: u64)
    ensures
        r == backoff_spec(retry_times as nat),
{
    let mut d: u64 = BASE_RETRY_DELAY_MS;
    let mut i: u8 = 0;
    while i < retry_times
        invariant
            0 <= i <= retry_times,
            d == backoff_spec(i as nat),
        decreases retry_times - i,
    {
        proof {
            lemma_pow2_pos(i as nat);
        }
        assert(pow2((i + 1) as nat) == 2 * pow2(i as nat));
        if d > u64::MAX / 2 {
            d = u64::MAX;
        } else {
            d = d * 2;
        }
        i = i + 1;
    }
    d
}

proof fn lemma_pow2_pos(k: nat)
    ensures
        pow2(k) >= 1,
    decreases k,
{
    if k > 0 {
        lemma_pow2_pos((k - 1) as nat);
    }
}

/// `is_best(cs, d)`: transaction `d` has the most stake, and the smallest digest among those
/// with as much.
pub open spec fn is_best(cs: Map<TransactionDigest, ConflictModel>, d: TransactionDigest) -> bool {
    &&& cs.contains_key(d)
    &&& forall|k: TransactionDigest|
        #[trigger] cs.contains_key(k) ==> cs[k].1 < cs[d].1 || (cs[k].1 == cs[d].1 && k >= d)
}

pub open spec fn reporters(c: ConflictModel) -> Seq<AuthorityName> {
    c.0.map_values(|p: (AuthorityName, ObjectRef)| p.0)
}

/// The policy, given the stake of the transaction and its strongest rival `d` with record
/// `best`.
pub open spec fn resolution_matches(
    r: ConflictResolution,
    good_stake: StakeUnit,
    d: TransactionDigest,
    best: ConflictModel,
    validity: StakeUnit,
) -> bool {
    if good_stake >= validity && best.1 >= validity {
        r is Equivocation
    } else if good_stake >= validity {
        r is OriginalLikelyToSucceed
    } else if best.1 < validity {
        r is InsufficientEvidence
    } else {
        match r {
            ConflictResolution::RetryConflicting { tx_digest, validators } => tx_digest == d
                && validators@ == reporters(best),
            _ => false,
        }
    }
}

/// Decides whether to retry a conflicting transaction, given the good stake of the
/// transaction and the conflicting transactions reported, against the validity threshold.
pub fn conflict_resolution(
    good_stake: StakeUnit,
    conflicting_tx_digests: &BTreeMap<TransactionDigest, ConflictingTransaction>,
    validity_threshold: StakeUnit,
) -> (r: ConflictResolution)
    ensures
        conflicting_tx_digests@.len() == 0 <==> r is NoConflicts,
        conflicting_tx_digests@.len() > 0 ==> exists|d: TransactionDigest|
            is_best(conflicts_model(conflicting_tx_digests@), d) && resolution_matches(
                r,
                good_stake,
                d,
                conflicts_model(conflicting_tx_digests@)[d],
                validity_threshold,
            ),
{
    broadcast use vstd::std_specs::btree::group_btree_axioms, vstd::laws_cmp::group_laws_cmp;

    let ghost m = conflicting_tx_digests@;
    let mut best: Option<TransactionDigest> = None;
    let mut best_stake: StakeUnit = 0;
    for kv in it: conflicting_tx_digests.iter()
        invariant
            m == conflicting_tx_digests@,
            best is None <==> it.index() == 0,
            best matches Some(d) ==> m.contains_key(d) && m[d].total_stake == best_stake && forall|j: int|
                0 <= j < it.index() ==> m[*it.seq()[j].0].total_stake < best_stake || (m[*it.seq()[j].0].total_stake
                    == best_stake && *it.seq()[j].0 >= d),
    {
        let (k, v) = kv;
        match best {
            None => {
                best = Some(*k);
                best_stake = v.total_stake;
            },
            Some(d) => {
                if v.total_stake > best_stake || (v.total_stake == best_stake && *k < d) {
                    best = Some(*k);
                    best_stake = v.total_stake;
                }
            },
        }
    }
    let d = match best {
        None => {
            return ConflictResolution::NoConflicts;
        },
        Some(d) => d,
    };
    let ghost cs = conflicts_model(m);
    assert(is_best(cs, d));
    let b = conflicting_tx_digests.get(&d).unwrap();
    let ghost bm = cs[d];
    assert(bm == conflict_model(*b));
    if good_stake >= validity_threshold && b.total_stake >= validity_threshold {
        return ConflictResolution::Equivocation;
    }
    if good_stake >= validity_threshold {
        return ConflictResolution::OriginalLikelyToSucceed;
    }
    if b.total_stake < validity_threshold {
        return ConflictResolution::InsufficientEvidence;
    }
    let mut validators: Vec<AuthorityName> = Vec::new();
    let mut k: usize = 0;
    while k < b.lock_records.len()
        invariant
            0 <= k <= b.lock_records.len(),
            bm == conflict_model(*b),
            validators@ == reporters(bm).take(k as int),
        decreases b.lock_records.len() - k,
    {
        validators.push(b.lock_records[k].0);
        assert(reporters(bm).take(k as int + 1) == reporters(bm).take(k as int).push(reporters(bm)[k as int]));
        k = k + 1;
    }
    assert(reporters(bm).take(k as int) == reporters(bm));
    ConflictResolution::RetryConflicting { tx_digest: d, validators }
}

/// The failure of a transaction whose certification met conflicting transactions, with the
/// outcome of retrying one of them, if one was retried.
pub fn conflicting_transactions_error(
    conflicting_txes: BTreeMap<TransactionDigest, ConflictingTransaction>,
    retried: Option<(TransactionDigest, bool)>,
) -> (r: SuiError)
    ensures
        match r {
            SuiError::QuorumFailedToProcessTransactionWithConflictingTransactions {
                conflicting_txes: c,
                retried_tx_digest,
                retried_tx_success,
            } => c@ == conflicting_txes@ && match retried {
                Some((d, ok)) => retried_tx_digest == Some(d) && retried_tx_success == Some(ok),
                None => retried_tx_digest is None && retried_tx_success is None,
            },
            _ => false,
        },
{
    match retried {
        Some((d, ok)) => SuiError::QuorumFailedToProcessTransactionWithConflictingTransactions {
            conflicting_txes,
            retried_tx_digest: Some(d),
            retried_tx_success: Some(ok),
        },
        None => SuiError::QuorumFailedToProcessTransactionWithConflictingTransactions {
            conflicting_txes,
            retried_tx_digest: None,
            retried_tx_success: None,
        },
    }
}

/// The terminal failure that `err` stands for, or `None` where `err` is worth a retry. Only
/// conflicting transactions found during certification are terminal.
pub fn convert_to_quorum_driver_error_if_nonretryable(err: SuiError) -> (r: Option<QuorumDriverError>)
    ensures
        match err {
            SuiError::QuorumFailedToProcessTransactionWithConflictingTransactions {
                conflicting_txes,
                retried_tx_digest,
                retried_tx_success,
            } => match r {
                Some(QuorumDriverError::ObjectsDoubleUsed { conflicting_txes: c, retried_tx, retried_tx_success: s }) =>
                    c@ == conflicting_txes@ && retried_tx == retried_tx_digest && s == retried_tx_success,
                _ => false,
            },
            _ => r is None,
        },
{
    match err {
        SuiError::QuorumFailedToProcessTransactionWithConflictingTransactions {
            conflicting_txes,
            retried_tx_digest,
            retried_tx_success,
        } => Some(
            QuorumDriverError::ObjectsDoubleUsed {
                conflicting_txes,
                retried_tx: retried_tx_digest,
                retried_tx_success,
            },
        ),
        _ => None,
    }
}

/// How to retry a conflicting transaction given what was fetched of it: a certificate is
/// preferred; a signed transaction is executed from scratch; with neither nothing can be done.
pub fn conflict_attempt_step(
    signed: Option<SignedTransaction>,
    certified: Option<CertifiedTransaction>,
) -> (r: Result<ConflictAttempt, SuiError>)
    ensures
        match certified {
            Some(c) => r matches Ok(ConflictAttempt::ProcessCertificate(c1)) && cert_model(c1) == cert_model(c),
            None => match signed {
                Some(t) => r matches Ok(ConflictAttempt::ExecuteTransaction(t1)) && t1 == t.transaction,
                None => r matches Err(SuiError::GenericAuthorityError { .. }),
            },
        },
{
    if let Some(c) = certified {
        return Ok(ConflictAttempt::ProcessCertificate(c));
    }
    if let Some(t) = signed {
        return Ok(ConflictAttempt::ExecuteTransaction(t.transaction));
    }
    Err(SuiError::GenericAuthorityError { error: "neither a signed nor a certified transaction was returned".to_owned() })
}

/// What a conflicting transaction's retry reports: its digest and whether it went through; a
/// retry that could not be made (the transaction could not be fetched) reports nothing.
pub fn conflict_retry_report(tx_digest: TransactionDigest, attempt: Result<bool, SuiError>) -> (r: Option<(TransactionDigest, bool)>)
    ensures
        match attempt {
            Ok(ok) => r == Some((tx_digest, ok)),
            Err(_) => r is None,
        },
{
    match attempt {
        Ok(ok) => Some((tx_digest, ok)),
        Err(_) => None,
    }
}

/// Whether a task is due at time `now`.
pub fn task_ready(task: &QuorumDriverTask, now: u64) -> (r: bool)
    ensures
        r == (now >= task.next_retry_after),
{
    now >= task.next_retry_after
}

/// The decision of `enqueue_again_maybe` after attempt `old_retry_times + 1` failed, as plain
/// values: `Ok` of the next retry count and due time, or `Err` of the attempts made.
pub open spec fn retry_spec(max_retry_times: u8, old_retry_times: u8, now: u64) -> Result<(u8, u64), u8> {
    if old_retry_times >= max_retry_times {
        Err(if old_retry_times == u8::MAX { u8::MAX } else { (old_retry_times + 1) as u8 })
    } else {
        Ok(((old_retry_times + 1) as u8, sat_time(now, backoff_spec(old_retry_times as nat))))
    }
}

/// Retrying a transaction whose every attempt fails: from retry count `k` below the maximum the
/// task goes back on the queue with count `k + 1`; at the maximum the driver gives up, reporting
/// `max_retry_times + 1` attempts. So a task that starts at 0 is retried exactly
/// `max_retry_times` times. Each wait is twice the one before, as long as it fits in a `u64`.
pub proof fn lemma_retry_schedule(max_retry_times: u8, now: u64, k: u8)
    ensures
        k < max_retry_times ==> (retry_spec(max_retry_times, k, now) matches Ok(next) && next.0 == k + 1),
        max_retry_times < u8::MAX ==> retry_spec(max_retry_times, max_retry_times, now) == Err::<(u8, u64), u8>(
            (max_retry_times + 1) as u8,
        ),
        (k as nat) < 56 ==> backoff_spec((k + 1) as nat) == 2 * backoff_spec(k as nat) && backoff_spec(
            k as nat,
        ) < backoff_spec((k + 1) as nat),
{
    if (k as nat) < 56 {
        lemma_pow2_bound((k + 1) as nat);
        lemma_pow2_pos(k as nat);
        assert(pow2((k + 1) as nat) == 2 * pow2(k as nat));
    }
}

proof fn lemma_pow2_bound(k: nat)
    requires
        k <= 56,
    ensures
        pow2(k) <= 0x100000000000000,
    decreases 56 - k,
{
    if k < 56 {
        lemma_pow2_bound(k + 1);
        assert(pow2(k + 1) == 2 * pow2(k));
    } else {
        reveal_with_fuel(pow2, 57);
    }
}

/// The conflict policy on the stake of a transaction and of its strongest rival: with less than
/// a validity threshold behind the transaction and at least one behind the rival, the rival is
/// the one transaction retried; with a validity threshold behind both, it is an equivocation
/// and nothing is retried; in every other case nothing is retried either.
pub proof fn lemma_conflict_policy(
    r: ConflictResolution,
    good_stake: StakeUnit,
    d: TransactionDigest,
    best: ConflictModel,
    validity: StakeUnit,
)
    requires
        resolution_matches(r, good_stake, d, best, validity),
    ensures
        good_stake < validity <= best.1 ==> (r matches ConflictResolution::RetryConflicting { tx_digest, .. }
            && tx_digest == d),
        good_stake >= validity && best.1 >= validity ==> r is Equivocation,
        !(good_stake < validity <= best.1) ==> !(r is RetryConflicting),
{
}

/// The sorted failure `f` of a certification that ended in state `m`: the conflicting
/// transactions with the policy's resolution where there are any, else the plain failure.
pub open spec fn sorted_failure(f: CertificationFailure, m: TxStateModel, validity: StakeUnit) -> bool {
    if m.conflicts.dom().len() > 0 {
        match f {
            CertificationFailure::Conflicts { conflicting_txes, resolution } => conflicts_model(conflicting_txes@)
                == m.conflicts && exists|d: TransactionDigest|
                is_best(m.conflicts, d) && resolution_matches(resolution, m.good_stake, d, m.conflicts[d], validity),
            _ => false,
        }
    } else {
        match f {
            CertificationFailure::Other(e) => tx_failure(e, m),
            _ => false,
        }
    }
}

/// Drives submitted transactions to finality: certification, then the effects quorum, with
/// retries.
pub struct QuorumDriver {
    pub validators: AuthorityAggregator,
    pub max_retry_times: u8,
}

impl QuorumDriver {
    pub fn new(validators: AuthorityAggregator, max_retry_times: u8) -> (r: QuorumDriver)
        ensures
            r.validators == validators,
            r.max_retry_times == max_retry_times,
    {
        QuorumDriver { validators, max_retry_times }
    }

    pub fn current_epoch(&self) -> (r: EpochId)
        ensures
            r == self.validators.committee.epoch,
    {
        self.validators.committee.epoch
    }

    pub fn authority_aggregator(&self) -> (r: &AuthorityAggregator)
        ensures
            *r == self.validators,
    {
        &self.validators
    }

    /// A copy of the current committee.
    pub fn clone_committee(&self) -> (r: Committee)
        ensures
            r.epoch == self.validators.committee.epoch,
            r.members() == self.validators.committee.members(),
            r.total() == self.validators.committee.total(),
    {
        let c = &self.validators.committee;
        let mut rights: Vec<(AuthorityName, StakeUnit)> = Vec::new();
        let mut i: usize = 0;
        while i < c.voting_rights.len()
            invariant
                0 <= i <= c.voting_rights.len(),
                rights@ == c.voting_rights@.take(i as int),
            decreases c.voting_rights.len() - i,
        {
            rights.push(c.voting_rights[i]);
            assert(c.voting_rights@.take(i as int + 1) == c.voting_rights@.take(i as int).push(c.voting_rights@[i as int]));
            i = i + 1;
        }
        assert(c.voting_rights@.take(i as int) == c.voting_rights@);
        Committee { epoch: c.epoch, voting_rights: rights, total_stake: c.total_stake }
    }

    /// Certifies `transaction` from the authorities' answers; a failure comes sorted, with the
    /// resolution policy applied to any conflicting transactions reported.
    pub fn process_transaction(
        &self,
        transaction: VerifiedTransaction,
        arrivals: Vec<Arrival<TransactionInfoResponse>>,
    ) -> (r: Result<CertifiedTransaction, CertificationFailure>)
        requires
            self.validators.committee.wf(),
            authorities_distinct(arrivals@),
            tx_responses_checked(self.validators.committee, transaction, arrivals@),
        ensures
            self.validators.tx_outcome(transaction, arrivals@) is Some,
            r matches Ok(c) ==> cert_backed(
                self.validators.committee,
                transaction,
                cert_model(c),
                self.validators.tx_outcome(transaction, arrivals@).unwrap().effects_cert,
            ),
            match r {
                Ok(c) => self.validators.tx_outcome(transaction, arrivals@).unwrap().certificate == Some(cert_model(c)),
                Err(f) => self.validators.tx_outcome(transaction, arrivals@).unwrap().certificate is None
                    && sorted_failure(
                    f,
                    self.validators.tx_outcome(transaction, arrivals@).unwrap(),
                    validity_of(self.validators.committee.total() as int) as u64,
                ),
            },
    {
        match self.validators.process_transaction(transaction, arrivals) {
            Ok(c) => Ok(c),
            Err(e) => {
                proof {
                    if let SuiError::QuorumFailedToProcessTransaction { conflicting_tx_digests, .. } = &e {
                        assert(conflicts_model(conflicting_tx_digests@).dom() =~= conflicting_tx_digests@.dom());
                    }
                }
                Err(self.on_certification_failure(e))
            },
        }
    }

    /// Collects certified effects for `certificate` from the authorities' answers, and pairs
    /// them with it.
    pub fn process_certificate(
        &self,
        certificate: CertifiedTransaction,
        arrivals: Vec<Arrival<HandleCertificateResponse>>,
    ) -> (r: Result<QuorumDriverResponse, SuiError>)
        requires
            self.validators.committee.wf(),
            authorities_distinct(arrivals@),
            effects_responses_checked(arrivals@),
        ensures
            self.validators.cert_outcome(arrivals@) is Some,
            r matches Ok(resp) ==> sig_stake(self.validators.committee, resp.effects_cert.signatures@) >= quorum_of(
                self.validators.committee.total() as int,
            ) && signers_distinct(resp.effects_cert.signatures@),
            match r {
                Ok(resp) => cert_model(resp.tx_cert) == cert_model(certificate)
                    && self.validators.cert_outcome(arrivals@).unwrap().effects_cert == cert_view(Some(resp.effects_cert)),
                Err(e) => self.validators.cert_outcome(arrivals@).unwrap().effects_cert is None
                    && cert_failure(e, self.validators.cert_outcome(arrivals@).unwrap()),
            },
    {
        let effects_cert = self.validators.process_certificate(&certificate, arrivals)?;
        Ok(QuorumDriverResponse { tx_cert: certificate, effects_cert })
    }

    /// Replaces the committee and clients as a whole.
    pub fn update_validators(&mut self, new_validators: AuthorityAggregator)
        ensures
            final(self).validators == new_validators,
            final(self).max_retry_times == old(self).max_retry_times,
    {
        self.validators = new_validators;
    }

    /// The task of a transaction just submitted.
    pub fn new_task(transaction: VerifiedTransaction, now: u64) -> (r: QuorumDriverTask)
        ensures
            task_model(r) == (transaction, None::<CertModel>, 0u8, now),
    {
        QuorumDriverTask { transaction, tx_cert: None, retry_times: 0, next_retry_after: now }
    }

    /// After a failed attempt: the task again, one retry later and due after the backoff, or the
    /// final failure once `max_retry_times` retries are spent.
    pub fn enqueue_again_maybe(
        &self,
        transaction: VerifiedTransaction,
        tx_cert: Option<CertifiedTransaction>,
        old_retry_times: u8,
        now: u64,
    ) -> (r: TaskAction)
        ensures
            match retry_spec(self.max_retry_times, old_retry_times, now) {
                Ok((retry, due)) => r matches TaskAction::Requeue(t) && task_model(t) == (
                    transaction,
                    opt_cert_model(tx_cert),
                    retry,
                    due,
                ),
                Err(n) => r matches TaskAction::NotifyFailure(e) && e == (QuorumDriverError::FailedAfterMaximumAttempts {
                    total_attempts: n,
                }),
            },
    {
        if old_retry_times >= self.max_retry_times {
            return TaskAction::NotifyFailure(
                QuorumDriverError::FailedAfterMaximumAttempts {
                    total_attempts: old_retry_times.saturating_add(1),
                },
            );
        }
        let delay = backoff_delay_ms(old_retry_times);
        TaskAction::Requeue(
            QuorumDriverTask {
                transaction,
                tx_cert,
                retry_times: old_retry_times + 1,
                next_retry_after: now.saturating_add(delay),
            },
        )
    }

    /// Sorts the failure of certification: conflicting transactions reported go to the
    /// resolution policy; anything else is returned as it is.
    pub fn on_certification_failure(&self, err: SuiError) -> (r: CertificationFailure)
        ensures
            match err {
                SuiError::QuorumFailedToProcessTransaction { good_stake, errors, conflicting_tx_digests } =>
                    if conflicting_tx_digests@.len() > 0 {
                    match r {
                        CertificationFailure::Conflicts { conflicting_txes, resolution } =>
                            conflicting_txes@ == conflicting_tx_digests@ && !(resolution is NoConflicts)
                            && exists|d: TransactionDigest|
                                is_best(conflicts_model(conflicting_tx_digests@), d) && resolution_matches(
                                    resolution,
                                    good_stake,
                                    d,
                                    conflicts_model(conflicting_tx_digests@)[d],
                                    validity_of(self.validators.committee.total() as int) as u64,
                                ),
                        _ => false,
                    }
                } else {
                    r is Other
                },
                _ => r is Other,
            },
            r matches CertificationFailure::Other(e) ==> e == err,
    {
        match err {
            SuiError::QuorumFailedToProcessTransaction { good_stake, errors, conflicting_tx_digests } => {
                if conflicting_tx_digests.len() > 0 {
                    let validity = self.validators.committee.validity_threshold();
                    let resolution = conflict_resolution(good_stake, &conflicting_tx_digests, validity);
                    CertificationFailure::Conflicts { conflicting_txes: conflicting_tx_digests, resolution }
                } else {
                    CertificationFailure::Other(
                        SuiError::QuorumFailedToProcessTransaction { good_stake, errors, conflicting_tx_digests },
                    )
                }
            },
            _ => CertificationFailure::Other(err),
        }
    }

    /// The next step of a task after certification: on success, the effects quorum with the
    /// certificate attached; on a terminal error, the failure; else a retry.
    pub fn after_certification(
        &self,
        task: QuorumDriverTask,
        result: Result<CertifiedTransaction, SuiError>,
        now: u64,
    ) -> (r: TaskAction)
        ensures
            match result {
                Ok(c) => r matches TaskAction::ProcessCertificate(t) && task_model(t) == (
                    task.transaction,
                    Some(cert_model(c)),
                    task.retry_times,
                    task.next_retry_after,
                ),
                Err(e) => match e {
                    SuiError::QuorumFailedToProcessTransactionWithConflictingTransactions {
                        conflicting_txes,
                        retried_tx_digest,
                        retried_tx_success,
                    } => match r {
                        TaskAction::NotifyFailure(
                            QuorumDriverError::ObjectsDoubleUsed { conflicting_txes: c, retried_tx, retried_tx_success: ok },
                        ) => c@ == conflicting_txes@ && retried_tx == retried_tx_digest && ok == retried_tx_success,
                        _ => false,
                    },
                    _ => match retry_spec(self.max_retry_times, task.retry_times, now) {
                        Ok((retry, due)) => r matches TaskAction::Requeue(t) && task_model(t) == (
                            task.transaction,
                            None::<CertModel>,
                            retry,
                            due,
                        ),
                        Err(n) => r matches TaskAction::NotifyFailure(f) && f == (QuorumDriverError::FailedAfterMaximumAttempts {
                            total_attempts: n,
                        }),
                    },
                },
            },
    {
        match result {
            Ok(cert) => TaskAction::ProcessCertificate(
                QuorumDriverTask {
                    transaction: task.transaction,
                    tx_cert: Some(cert),
                    retry_times: task.retry_times,
                    next_retry_after: task.next_retry_after,
                },
            ),
            Err(err) => match convert_to_quorum_driver_error_if_nonretryable(err) {
                Some(qd_error) => TaskAction::NotifyFailure(qd_error),
                None => self.enqueue_again_maybe(task.transaction, None, task.retry_times, now),
            },
        }
    }

    /// The next step of a task after the effects quorum: success is delivered; any failure is
    /// retried with the certificate kept, so certification is not repeated.
    pub fn after_execution(
        &self,
        task: QuorumDriverTask,
        result: Result<CertifiedTransactionEffects, SuiError>,
        now: u64,
    ) -> (r: TaskAction)
        requires
            task.tx_cert is Some,
        ensures
            match result {
                Ok(e) => r matches TaskAction::NotifySuccess(resp) && cert_model(resp.tx_cert) == cert_model(
                    task.tx_cert.unwrap(),
                ) && cert_view(Some(resp.effects_cert)) == cert_view(Some(e)),
                Err(_) => match retry_spec(self.max_retry_times, task.retry_times, now) {
                    Ok((retry, due)) => r matches TaskAction::Requeue(t) && task_model(t) == (
                        task.transaction,
                        opt_cert_model(task.tx_cert),
                        retry,
                        due,
                    ),
                    Err(n) => r matches TaskAction::NotifyFailure(f) && f == (QuorumDriverError::FailedAfterMaximumAttempts {
                        total_attempts: n,
                    }),
                },
            },
    {
        let QuorumDriverTask { transaction, tx_cert, retry_times, next_retry_after } = task;
        match result {
            Ok(effects_cert) => match tx_cert {
                Some(c) => TaskAction::NotifySuccess(QuorumDriverResponse { tx_cert: c, effects_cert }),
                None => TaskAction::Requeue(QuorumDriverTask { transaction, tx_cert: None, retry_times, next_retry_after }),
            },
            Err(_) => self.enqueue_again_maybe(transaction, tx_cert, retry_times, now),
        }
    }
}

} // verus!
