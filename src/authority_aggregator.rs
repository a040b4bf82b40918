use std::collections::BTreeMap;

use vstd::prelude::*;

use crate::aggregation::{
    authorities_distinct, fold_spec, quorum_map_then_reduce_with_timeout, Arrival, ReduceOutput,
    Reducer,
};
use crate::committee::{
    quorum_of, sat_add, validity_of, AuthorityName, Committee, EpochId, StakeUnit,
};
use crate::effects_map::{
    cert_add, cert_for, cert_view, effects_key, tally_add, EffectsCertView, EffectsKey, EffectsStakeMap,
    EffectsTally,
};
use crate::messages::{
    copy_signatures, AuthoritySignInfo, CertifiedTransaction, CertifiedTransactionEffects,
    ConflictingTransaction, HandleCertificateResponse, ObjectRef, SignedTransaction,
    SignedTransactionEffects, SuiError, TransactionAndEffectsInfoResponse, TransactionDigest,
    TransactionEffectsDigest, TransactionInfoResponse, VerifiedTransaction,
};

verus! {

/// Retries of a single request made by callers of the aggregator.
pub const DEFAULT_RETRIES: usize = 4;

/// Timeouts of the aggregator, in milliseconds.
#[derive(Clone, Copy, Debug)]
pub struct TimeoutConfig {
    /// For each of many concurrent requests.
    pub authority_request_timeout: u64,
    /// For the next response while no quorum has formed.
    pub pre_quorum_timeout: u64,
    /// For the next response once a quorum has formed.
    pub post_quorum_timeout: u64,
    /// For each request made one authority at a time.
    pub serial_authority_request_timeout: u64,
    /// After this long a request made one authority at a time gets company.
    pub serial_authority_request_interval: u64,
}

impl Default for TimeoutConfig {
    fn default() -> (r: Self)
        ensures
            r.authority_request_timeout == 60_000,
            r.pre_quorum_timeout == 60_000,
            r.post_quorum_timeout == 30_000,
            r.serial_authority_request_timeout == 5_000,
            r.serial_authority_request_interval == 1_000,
    {
        TimeoutConfig {
            authority_request_timeout: 60_000,
            pre_quorum_timeout: 60_000,
            post_quorum_timeout: 30_000,
            serial_authority_request_timeout: 5_000,
            serial_authority_request_interval: 1_000,
        }
    }
}

/// A transaction certificate as plain values: transaction, epoch, signatures.
pub type CertModel = (VerifiedTransaction, EpochId, Seq<AuthoritySignInfo>);

pub open spec fn cert_model(c: CertifiedTransaction) -> CertModel {
    (c.transaction, c.epoch, c.signatures@)
}

/// A conflicting transaction as plain values: the lock reports and their stake.
pub type ConflictModel = (Seq<(AuthorityName, ObjectRef)>, StakeUnit);

pub open spec fn conflict_model(c: ConflictingTransaction) -> ConflictModel {
    (c.lock_records@, c.total_stake)
}

/// The conflicting transactions by digest, as plain values.
pub open spec fn conflicts_model(m: Map<TransactionDigest, ConflictingTransaction>) -> Map<TransactionDigest, ConflictModel> {
    m.map_values(|c: ConflictingTransaction| conflict_model(c))
}

/// Records that `name`, of stake `weight`, reports `obj_ref` locked by transaction `d`.
pub open spec fn conflict_add(
    cs: Map<TransactionDigest, ConflictModel>,
    d: TransactionDigest,
    name: AuthorityName,
    obj_ref: ObjectRef,
    weight: StakeUnit,
) -> Map<TransactionDigest, ConflictModel> {
    if cs.contains_key(d) {
        cs.insert(d, (cs[d].0.push((name, obj_ref)), sat_add(cs[d].1, weight)))
    } else {
        cs.insert(d, (seq![(name, obj_ref)], weight))
    }
}

/// The state of certifying a transaction, as plain values.
pub struct TxStateModel {
    pub signatures: Seq<AuthoritySignInfo>,
    pub certificate: Option<CertModel>,
    pub effects: Map<EffectsKey, EffectsTally>,
    pub effects_cert: Option<EffectsCertView>,
    pub errors: Seq<SuiError>,
    pub good_stake: StakeUnit,
    pub bad_stake: StakeUnit,
    pub conflicts: Map<TransactionDigest, ConflictModel>,
}

/// What certifying a transaction has gathered so far.
pub struct ProcessTransactionState {
    /// Signatures on the transaction, in the epoch of the committee.
    pub signatures: Vec<AuthoritySignInfo>,
    /// A certificate made or found.
    pub certificate: Option<CertifiedTransaction>,
    /// Effects reported with certificates of other epochs.
    pub effects_map: EffectsStakeMap,
    pub errors: Vec<SuiError>,
    pub good_stake: StakeUnit,
    pub bad_stake: StakeUnit,
    /// Transactions that authorities report as holding a lock on an input object.
    pub conflicting_tx_digests: BTreeMap<TransactionDigest, ConflictingTransaction>,
}

pub open spec fn opt_cert_model(c: Option<CertifiedTransaction>) -> Option<CertModel> {
    match c {
        Some(c) => Some(cert_model(c)),
        None => None,
    }
}

impl View for ProcessTransactionState {
    type V = TxStateModel;

    open spec fn view(&self) -> TxStateModel {
        TxStateModel {
            signatures: self.signatures@,
            certificate: opt_cert_model(self.certificate),
            effects: self.effects_map@,
            effects_cert: self.effects_map.cert(),
            errors: self.errors@,
            good_stake: self.good_stake,
            bad_stake: self.bad_stake,
            conflicts: conflicts_model(self.conflicting_tx_digests@),
        }
    }
}

pub open spec fn tx_initial_model() -> TxStateModel {
    TxStateModel {
        signatures: Seq::empty(),
        certificate: None,
        effects: Map::empty(),
        effects_cert: None,
        errors: Seq::empty(),
        good_stake: 0,
        bad_stake: 0,
        conflicts: Map::empty(),
    }
}

impl ProcessTransactionState {
    /// The certificate made or found, else the failure with the good stake, the errors and the
    /// conflicting transactions.
    pub fn into_certificate(self) -> (r: Result<CertifiedTransaction, SuiError>)
        ensures
            match r {
                Ok(c) => self@.certificate == Some(cert_model(c)),
                Err(e) => self@.certificate is None && tx_failure(e, self@),
            },
    {
        match self.certificate {
            Some(c) => Ok(c),
            None => Err(
                SuiError::QuorumFailedToProcessTransaction {
                    good_stake: self.good_stake,
                    errors: self.errors,
                    conflicting_tx_digests: self.conflicting_tx_digests,
                },
            ),
        }
    }

    pub fn new() -> (r: ProcessTransactionState)
        ensures
            r@ == tx_initial_model(),
            r.effects_map.wf(),
    {
        let r = ProcessTransactionState {
            signatures: Vec::new(),
            certificate: None,
            effects_map: EffectsStakeMap::new(),
            errors: Vec::new(),
            good_stake: 0,
            bad_stake: 0,
            conflicting_tx_digests: BTreeMap::new(),
        };
        assert(conflicts_model(r.conflicting_tx_digests@) =~= Map::<TransactionDigest, ConflictModel>::empty());
        r
    }
}

/// Folds answers to a transaction: signatures of the committee's epoch toward a certificate,
/// certificates, effects of finished transactions, and errors.
pub struct ProcessTransactionReducer {
    pub epoch: EpochId,
    pub quorum_threshold: StakeUnit,
    pub validity_threshold: StakeUnit,
    pub transaction: VerifiedTransaction,
}

impl ProcessTransactionReducer {
    /// The state after a signature on the transaction; a certificate forms at the quorum.
    pub open spec fn signed_model(&self, st: TxStateModel, signed: SignedTransaction, weight: StakeUnit) -> TxStateModel {
        let sigs = st.signatures.push(signed.auth_sig);
        let good = sat_add(st.good_stake, weight);
        TxStateModel {
            signatures: sigs,
            good_stake: good,
            certificate: if good >= self.quorum_threshold {
                Some((self.transaction, self.epoch, sigs))
            } else {
                st.certificate
            },
            ..st
        }
    }

    /// The state after an answer that brings neither a usable signature nor a certificate.
    pub open spec fn unexpected_model(&self, st: TxStateModel, weight: StakeUnit) -> TxStateModel {
        TxStateModel {
            errors: st.errors.push(SuiError::UnexpectedResultFromValidatorHandleTransaction),
            bad_stake: sat_add(st.bad_stake, weight),
            ..st
        }
    }

    /// The state after an answer without a certificate.
    pub open spec fn no_cert_model(&self, st: TxStateModel, signed: Option<SignedTransaction>, weight: StakeUnit) -> TxStateModel {
        match signed {
            Some(t) => if t.auth_sig.epoch == self.epoch {
                self.signed_model(st, t, weight)
            } else {
                self.unexpected_model(st, weight)
            },
            None => self.unexpected_model(st, weight),
        }
    }

    /// The state after one answer, before deciding whether to stop.
    pub open spec fn absorb_model(
        &self,
        st: TxStateModel,
        name: AuthorityName,
        weight: StakeUnit,
        result: Result<TransactionInfoResponse, SuiError>,
    ) -> TxStateModel {
        match result {
            Ok(resp) => match resp.certified_transaction {
                Some(c) => if c.epoch == self.epoch {
                    TxStateModel { certificate: Some(cert_model(c)), ..st }
                } else if c.epoch < self.epoch {
                    match resp.signed_effects {
                        Some(e) => {
                            let m = tally_add(st.effects, e, weight);
                            let ec = cert_add(st.effects, st.effects_cert, e, weight, self.quorum_threshold as int);
                            TxStateModel {
                                effects: m,
                                effects_cert: ec,
                                certificate: if cert_for(ec, effects_key(e)) {
                                    Some(cert_model(c))
                                } else {
                                    st.certificate
                                },
                                ..st
                            }
                        },
                        None => self.no_cert_model(st, resp.signed_transaction, weight),
                    }
                } else {
                    self.no_cert_model(st, resp.signed_transaction, weight)
                },
                None => self.no_cert_model(st, resp.signed_transaction, weight),
            },
            Err(err) => TxStateModel {
                conflicts: match err {
                    SuiError::ObjectLockConflict { obj_ref, pending_transaction } => conflict_add(
                        st.conflicts,
                        pending_transaction,
                        name,
                        obj_ref,
                        weight,
                    ),
                    _ => st.conflicts,
                },
                errors: st.errors.push(err),
                bad_stake: sat_add(st.bad_stake, weight),
                ..st
            },
        }
    }

    /// Stop once errors exceed the validity threshold or a certificate is at hand.
    pub open spec fn decide_model(&self, st: TxStateModel) -> ReduceOutput<TxStateModel> {
        if st.bad_stake > self.validity_threshold {
            ReduceOutput::End(st)
        } else if st.certificate is Some {
            ReduceOutput::End(st)
        } else {
            ReduceOutput::Continue(st)
        }
    }

    fn absorb_signed(&self, state: ProcessTransactionState, signed: Option<SignedTransaction>, weight: StakeUnit) -> (r: ProcessTransactionState)
        requires
            state.effects_map.wf(),
        ensures
            r@ == self.no_cert_model(state@, signed, weight),
            r.effects_map.wf(),
            r.conflicting_tx_digests == state.conflicting_tx_digests,
    {
        let mut state = state;
        match signed {
            Some(t) => {
                if t.auth_sig.epoch == self.epoch {
                    state.signatures.push(t.auth_sig);
                    state.good_stake = state.good_stake.saturating_add(weight);
                    if state.good_stake >= self.quorum_threshold {
                        state.certificate = Some(
                            CertifiedTransaction {
                                transaction: self.transaction,
                                epoch: self.epoch,
                                signatures: copy_signatures(&state.signatures),
                            },
                        );
                    }
                } else {
                    state.errors.push(SuiError::UnexpectedResultFromValidatorHandleTransaction);
                    state.bad_stake = state.bad_stake.saturating_add(weight);
                }
            },
            None => {
                state.errors.push(SuiError::UnexpectedResultFromValidatorHandleTransaction);
                state.bad_stake = state.bad_stake.saturating_add(weight);
            },
        }
        state
    }
}

/// Adds a lock report on `d` to the conflicting transactions.
fn record_conflict(
    cs: &mut BTreeMap<TransactionDigest, ConflictingTransaction>,
    d: TransactionDigest,
    name: AuthorityName,
    obj_ref: ObjectRef,
    weight: StakeUnit,
)
    ensures
        conflicts_model(final(cs)@) == conflict_add(conflicts_model(old(cs)@), d, name, obj_ref, weight),
{
    broadcast use vstd::std_specs::btree::group_btree_axioms, vstd::laws_cmp::group_laws_cmp;

    let ghost m0 = cs@;
    let c = match cs.remove(&d) {
        Some(mut c) => {
            c.lock_records.push((name, obj_ref));
            c.total_stake = c.total_stake.saturating_add(weight);
            c
        },
        None => {
            let mut records: Vec<(AuthorityName, ObjectRef)> = Vec::new();
            records.push((name, obj_ref));
            assert(records@ =~= seq![(name, obj_ref)]);
            ConflictingTransaction { lock_records: records, total_stake: weight }
        },
    };
    cs.insert(d, c);
    assert(cs@ == m0.insert(d, c));
    assert(conflicts_model(cs@) =~= conflict_add(conflicts_model(m0), d, name, obj_ref, weight));
}

impl Reducer<ProcessTransactionState, TransactionInfoResponse> for ProcessTransactionReducer {
    open spec fn reduce_spec(
        &self,
        state: TxStateModel,
        name: AuthorityName,
        weight: StakeUnit,
        result: Result<TransactionInfoResponse, SuiError>,
    ) -> Option<ReduceOutput<TxStateModel>> {
        Some(self.decide_model(self.absorb_model(state, name, weight, result)))
    }

    open spec fn fails_with(
        &self,
        state: TxStateModel,
        name: AuthorityName,
        weight: StakeUnit,
        result: Result<TransactionInfoResponse, SuiError>,
        err: SuiError,
    ) -> bool {
        false
    }

    open spec fn state_inv(&self, state: ProcessTransactionState) -> bool {
        state.effects_map.wf()
    }

    fn reduce(
        &self,
        state: ProcessTransactionState,
        name: AuthorityName,
        weight: StakeUnit,
        result: Result<TransactionInfoResponse, SuiError>,
    ) -> (r: Result<ReduceOutput<ProcessTransactionState>, SuiError>) {
        let ghost st0 = state@;
        let ghost res = result;
        let mut state = state;
        match result {
            Ok(resp) => {
                let TransactionInfoResponse { signed_transaction, certified_transaction, signed_effects } = resp;
                match certified_transaction {
                    Some(c) => {
                        if c.epoch == self.epoch {
                            // A certificate of the current epoch needs no more signatures.
                            state.certificate = Some(c);
                        } else if c.epoch < self.epoch {
                            match signed_effects {
                                Some(e) => {
                                    // A certificate of a past epoch counts once its effects
                                    // gather a quorum: the transaction is already final.
                                    if state.effects_map.add(e, weight, self.quorum_threshold) {
                                        state.certificate = Some(c);
                                    }
                                },
                                None => {
                                    state = self.absorb_signed(state, signed_transaction, weight);
                                },
                            }
                        } else {
                            state = self.absorb_signed(state, signed_transaction, weight);
                        }
                    },
                    None => {
                        state = self.absorb_signed(state, signed_transaction, weight);
                    },
                }
            },
            Err(err) => {
                match &err {
                    SuiError::ObjectLockConflict { obj_ref, pending_transaction } => {
                        record_conflict(
                            &mut state.conflicting_tx_digests,
                            *pending_transaction,
                            name,
                            *obj_ref,
                            weight,
                        );
                    },
                    _ => {},
                }
                state.errors.push(err);
                state.bad_stake = state.bad_stake.saturating_add(weight);
            },
        }
        assert(state@ == self.absorb_model(st0, name, weight, res));
        if state.bad_stake > self.validity_threshold {
            return Ok(ReduceOutput::End(state));
        }
        if state.certificate.is_some() {
            Ok(ReduceOutput::End(state))
        } else {
            Ok(ReduceOutput::Continue(state))
        }
    }
}

/// The state of collecting effects for a certificate, as plain values.
pub struct CertStateModel {
    pub effects: Map<EffectsKey, EffectsTally>,
    pub effects_cert: Option<EffectsCertView>,
    pub bad_stake: StakeUnit,
    pub errors: Seq<SuiError>,
}

/// What executing a certificate has gathered so far.
pub struct ProcessCertificateState {
    /// Stake per distinct effects; the first to reach a quorum wins.
    pub effects_map: EffectsStakeMap,
    pub bad_stake: StakeUnit,
    pub errors: Vec<SuiError>,
}

impl View for ProcessCertificateState {
    type V = CertStateModel;

    open spec fn view(&self) -> CertStateModel {
        CertStateModel {
            effects: self.effects_map@,
            effects_cert: self.effects_map.cert(),
            bad_stake: self.bad_stake,
            errors: self.errors@,
        }
    }
}

pub open spec fn cert_initial_model() -> CertStateModel {
    CertStateModel { effects: Map::empty(), effects_cert: None, bad_stake: 0, errors: Seq::empty() }
}

impl ProcessCertificateState {
    /// The certified effects, else the failure with every error.
    pub fn into_effects(self) -> (r: Result<CertifiedTransactionEffects, SuiError>)
        ensures
            match r {
                Ok(c) => self@.effects_cert == cert_view(Some(c)),
                Err(e) => self@.effects_cert is None && cert_failure(e, self@),
            },
    {
        match self.effects_map.get_cert() {
            Some(c) => Ok(c),
            None => Err(SuiError::QuorumFailedToExecuteCertificate { errors: self.errors }),
        }
    }

    pub fn new() -> (r: ProcessCertificateState)
        ensures
            r@ == cert_initial_model(),
            r.effects_map.wf(),
    {
        ProcessCertificateState { effects_map: EffectsStakeMap::new(), bad_stake: 0, errors: Vec::new() }
    }
}

/// Folds signed effects of a certificate until one effects digest holds a quorum.
pub struct ProcessCertificateReducer {
    pub quorum_threshold: StakeUnit,
    pub validity_threshold: StakeUnit,
}

impl Reducer<ProcessCertificateState, HandleCertificateResponse> for ProcessCertificateReducer {
    open spec fn reduce_spec(
        &self,
        st: CertStateModel,
        name: AuthorityName,
        weight: StakeUnit,
        result: Result<HandleCertificateResponse, SuiError>,
    ) -> Option<ReduceOutput<CertStateModel>> {
        match result {
            Ok(resp) => {
                let e = resp.signed_effects;
                let m = tally_add(st.effects, e, weight);
                let st1 = CertStateModel {
                    effects: m,
                    effects_cert: cert_add(st.effects, st.effects_cert, e, weight, self.quorum_threshold as int),
                    ..st
                };
                if cert_for(st1.effects_cert, effects_key(e)) {
                    Some(ReduceOutput::End(st1))
                } else {
                    Some(ReduceOutput::Continue(st1))
                }
            },
            Err(err) => {
                let st1 = CertStateModel {
                    errors: st.errors.push(err),
                    bad_stake: sat_add(st.bad_stake, weight),
                    ..st
                };
                if st1.bad_stake > self.validity_threshold {
                    Some(ReduceOutput::End(st1))
                } else {
                    Some(ReduceOutput::Continue(st1))
                }
            },
        }
    }

    open spec fn fails_with(
        &self,
        state: CertStateModel,
        name: AuthorityName,
        weight: StakeUnit,
        result: Result<HandleCertificateResponse, SuiError>,
        err: SuiError,
    ) -> bool {
        false
    }

    open spec fn state_inv(&self, state: ProcessCertificateState) -> bool {
        state.effects_map.wf()
    }

    fn reduce(
        &self,
        state: ProcessCertificateState,
        name: AuthorityName,
        weight: StakeUnit,
        result: Result<HandleCertificateResponse, SuiError>,
    ) -> (r: Result<ReduceOutput<ProcessCertificateState>, SuiError>) {
        let mut state = state;
        match result {
            Ok(resp) => {
                // Effects are counted by their digest.
                if state.effects_map.add(resp.signed_effects, weight, self.quorum_threshold) {
                    return Ok(ReduceOutput::End(state));
                }
            },
            Err(err) => {
                state.errors.push(err);
                state.bad_stake = state.bad_stake.saturating_add(weight);
                if state.bad_stake > self.validity_threshold {
                    return Ok(ReduceOutput::End(state));
                }
            },
        }
        Ok(ReduceOutput::Continue(state))
    }
}

/// The failure of certification, built from the final state.
pub open spec fn tx_failure(e: SuiError, m: TxStateModel) -> bool {
    match e {
        SuiError::QuorumFailedToProcessTransaction { good_stake, errors, conflicting_tx_digests } => {
            &&& good_stake == m.good_stake
            &&& errors@ == m.errors
            &&& conflicts_model(conflicting_tx_digests@) == m.conflicts
        },
        _ => false,
    }
}

/// The failure of effects collection, built from the final state.
pub open spec fn cert_failure(e: SuiError, m: CertStateModel) -> bool {
    match e {
        SuiError::QuorumFailedToExecuteCertificate { errors } => errors@ == m.errors,
        _ => false,
    }
}

/// Drives transactions and certificates through a committee.
#[derive(Clone, Debug)]
pub struct AuthorityAggregator {
    pub committee: Committee,
    pub timeouts: TimeoutConfig,
}

impl AuthorityAggregator {
    pub fn new(committee: Committee) -> (r: AuthorityAggregator)
        ensures
            r.committee == committee,
            r.timeouts.pre_quorum_timeout == 60_000,
            r.timeouts.post_quorum_timeout == 30_000,
    {
        AuthorityAggregator { committee, timeouts: TimeoutConfig::default() }
    }

    pub fn new_with_timeouts(committee: Committee, timeouts: TimeoutConfig) -> (r: AuthorityAggregator)
        ensures
            r.committee == committee,
            r.timeouts == timeouts,
    {
        AuthorityAggregator { committee, timeouts }
    }

    pub open spec fn tx_reducer(&self, transaction: VerifiedTransaction) -> ProcessTransactionReducer {
        ProcessTransactionReducer {
            epoch: self.committee.epoch,
            quorum_threshold: quorum_of(self.committee.total() as int) as u64,
            validity_threshold: validity_of(self.committee.total() as int) as u64,
            transaction,
        }
    }

    pub open spec fn cert_reducer(&self) -> ProcessCertificateReducer {
        ProcessCertificateReducer {
            quorum_threshold: quorum_of(self.committee.total() as int) as u64,
            validity_threshold: validity_of(self.committee.total() as int) as u64,
        }
    }

    pub open spec fn true_effects_reducer_spec(&self) -> ExecuteCertReducer {
        ExecuteCertReducer {
            validity_threshold: validity_of(self.committee.total() as int) as u64,
            total_weight: self.committee.total(),
        }
    }

    /// The reducer that certifies `transaction` against this committee.
    pub fn transaction_reducer(&self, transaction: VerifiedTransaction) -> (r: ProcessTransactionReducer)
        ensures
            r == self.tx_reducer(transaction),
    {
        ProcessTransactionReducer {
            epoch: self.committee.epoch,
            quorum_threshold: self.committee.quorum_threshold(),
            validity_threshold: self.committee.validity_threshold(),
            transaction,
        }
    }

    /// The reducer that collects certified effects against this committee.
    pub fn certificate_reducer(&self) -> (r: ProcessCertificateReducer)
        ensures
            r == self.cert_reducer(),
    {
        ProcessCertificateReducer {
            quorum_threshold: self.committee.quorum_threshold(),
            validity_threshold: self.committee.validity_threshold(),
        }
    }

    /// The reducer that looks for effects backed by a validity threshold of stake.
    pub fn true_effects_reducer(&self) -> (r: ExecuteCertReducer)
        ensures
            r == self.true_effects_reducer_spec(),
    {
        ExecuteCertReducer {
            validity_threshold: self.committee.validity_threshold(),
            total_weight: self.committee.total_stake(),
        }
    }

    /// The final state of certifying `transaction` from the answers `arrivals`.
    pub open spec fn tx_outcome(
        &self,
        transaction: VerifiedTransaction,
        arrivals: Seq<Arrival<TransactionInfoResponse>>,
    ) -> Option<TxStateModel> {
        fold_spec(self.committee, self.tx_reducer(transaction), tx_initial_model(), self.timeouts.pre_quorum_timeout, arrivals)
    }

    /// The final state of collecting effects from the answers `arrivals`.
    pub open spec fn cert_outcome(&self, arrivals: Seq<Arrival<HandleCertificateResponse>>) -> Option<CertStateModel> {
        fold_spec(self.committee, self.cert_reducer(), cert_initial_model(), self.timeouts.pre_quorum_timeout, arrivals)
    }

    /// The final state of looking for true effects from the answers `arrivals`.
    pub open spec fn execute_outcome(&self, arrivals: Seq<Arrival<HandleCertificateResponse>>) -> Option<ExecuteCertModel> {
        fold_spec(
            self.committee,
            self.true_effects_reducer_spec(),
            execute_initial_model(),
            self.timeouts.pre_quorum_timeout,
            arrivals,
        )
    }

    /// The effects of a certificate as executed by other authorities (its signers are best asked
    /// first): the first effects that a validity threshold of stake returns, so at least one
    /// honest authority computed them; else every authority's error.
    pub fn execute_cert_to_true_effects(
        &self,
        cert: &CertifiedTransaction,
        arrivals: Vec<Arrival<HandleCertificateResponse>>,
    ) -> (r: Result<SignedTransactionEffects, SuiError>)
        requires
            self.committee.wf(),
            authorities_distinct(arrivals@),
        ensures
            self.execute_outcome(arrivals@) is Some,
            match r {
                Ok(e) => self.execute_outcome(arrivals@).unwrap().true_effects == Some(e),
                Err(err) => self.execute_outcome(arrivals@).unwrap().true_effects is None && match err {
                    SuiError::TooManyIncorrectAuthorities { errors, action } =>
                        errors@ == self.execute_outcome(arrivals@).unwrap().errors
                        && action@ == "execute_cert_to_true_effects"@,
                    _ => false,
                },
            },
    {
        let reducer = self.true_effects_reducer();
        proof {
            lemma_execute_fold_total(self.committee, reducer, execute_initial_model(), self.timeouts.pre_quorum_timeout, arrivals@);
        }
        match quorum_map_then_reduce_with_timeout(&self.committee, &reducer, ExecuteCertState::new(), arrivals, self.timeouts.pre_quorum_timeout) {
            Ok(state) => state.into_true_effects(),
            Err(e) => Err(e),
        }
    }

    /// Turns `transaction` into a certificate from the authorities' answers, taken in the order
    /// they arrived. The certificate is the one the fold made or found; without one, the error
    /// carries the good stake, every error and the conflicting transactions reported.
    pub fn process_transaction(
        &self,
        transaction: VerifiedTransaction,
        arrivals: Vec<Arrival<TransactionInfoResponse>>,
    ) -> (r: Result<CertifiedTransaction, SuiError>)
        requires
            self.committee.wf(),
            authorities_distinct(arrivals@),
            tx_responses_checked(self.committee, transaction, arrivals@),
        ensures
            self.tx_outcome(transaction, arrivals@) is Some,
            r matches Ok(c) ==> cert_backed(self.committee, transaction, cert_model(c), self.tx_outcome(transaction, arrivals@).unwrap().effects_cert),
            match r {
                Ok(c) => self.tx_outcome(transaction, arrivals@).unwrap().certificate == Some(cert_model(c)),
                Err(e) => self.tx_outcome(transaction, arrivals@).unwrap().certificate is None
                    && tx_failure(e, self.tx_outcome(transaction, arrivals@).unwrap()),
            },
    {
        let reducer = self.transaction_reducer(transaction);
        let state = ProcessTransactionState::new();
        assert(conflicts_model(state.conflicting_tx_digests@) =~= Map::<TransactionDigest, ConflictModel>::empty());
        proof {
            lemma_tx_fold_total(self.committee, reducer, tx_initial_model(), self.timeouts.pre_quorum_timeout, arrivals@);
            lemma_tx_fold_inv(self.committee, reducer, tx_initial_model(), self.timeouts.pre_quorum_timeout, arrivals@);
        }
        match quorum_map_then_reduce_with_timeout(&self.committee, &reducer, state, arrivals, self.timeouts.pre_quorum_timeout) {
            Ok(state) => state.into_certificate(),
            Err(e) => Err(e),
        }
    }

    /// Turns a certificate into certified effects from the authorities' answers, taken in the
    /// order they arrived: the first effects to gather a quorum of stake, or an error carrying
    /// every error received.
    pub fn process_certificate(
        &self,
        certificate: &CertifiedTransaction,
        arrivals: Vec<Arrival<HandleCertificateResponse>>,
    ) -> (r: Result<CertifiedTransactionEffects, SuiError>)
        requires
            self.committee.wf(),
            authorities_distinct(arrivals@),
            effects_responses_checked(arrivals@),
        ensures
            self.cert_outcome(arrivals@) is Some,
            r matches Ok(c) ==> sig_stake(self.committee, c.signatures@) >= quorum_of(self.committee.total() as int)
                && signers_distinct(c.signatures@),
            match r {
                Ok(c) => self.cert_outcome(arrivals@).unwrap().effects_cert == cert_view(Some(c)),
                Err(e) => self.cert_outcome(arrivals@).unwrap().effects_cert is None
                    && cert_failure(e, self.cert_outcome(arrivals@).unwrap()),
            },
    {
        let reducer = self.certificate_reducer();
        let state = ProcessCertificateState::new();
        proof {
            lemma_cert_fold_total(self.committee, reducer, cert_initial_model(), self.timeouts.pre_quorum_timeout, arrivals@);
            lemma_cert_fold_inv(self.committee, reducer, cert_initial_model(), self.timeouts.pre_quorum_timeout, arrivals@);
        }
        match quorum_map_then_reduce_with_timeout(&self.committee, &reducer, state, arrivals, self.timeouts.pre_quorum_timeout) {
            Ok(state) => state.into_effects(),
            Err(e) => Err(e),
        }
    }
}

/// The stake of the signers of `sigs` (clamped at the largest stake value).
pub open spec fn sig_stake(committee: Committee, sigs: Seq<AuthoritySignInfo>) -> StakeUnit
    decreases sigs.len(),
{
    if sigs.len() == 0 {
        0
    } else {
        sat_add(sig_stake(committee, sigs.drop_last()), committee.weight_spec(sigs.last().authority))
    }
}

/// What the authority client checks of an answer to `transaction` from authority `a`: a
/// signature is `a`'s own and on `transaction`; a certificate is for `transaction` and, in the
/// committee's epoch, signed by a quorum of stake; signed effects are `a`'s own.
pub open spec fn tx_response_checked(
    committee: Committee,
    transaction: VerifiedTransaction,
    a: AuthorityName,
    resp: TransactionInfoResponse,
) -> bool {
    &&& (resp.signed_transaction matches Some(t) ==> t.transaction == transaction && t.auth_sig.authority == a)
    &&& (resp.certified_transaction matches Some(c) ==> c.transaction == transaction && (c.epoch == committee.epoch
        ==> sig_stake(committee, c.signatures@) >= quorum_of(committee.total() as int) && signers_distinct(
        c.signatures@,
    )))
    &&& (resp.signed_effects matches Some(e) ==> e.auth_sig.authority == a)
}

pub open spec fn tx_responses_checked(
    committee: Committee,
    transaction: VerifiedTransaction,
    arrivals: Seq<Arrival<TransactionInfoResponse>>,
) -> bool {
    forall|i: int| 0 <= i < arrivals.len() ==> tx_arrival_checked(committee, transaction, #[trigger] arrivals[i])
}

pub open spec fn tx_arrival_checked(
    committee: Committee,
    transaction: VerifiedTransaction,
    a: Arrival<TransactionInfoResponse>,
) -> bool {
    match a.result {
        Ok(resp) => tx_response_checked(committee, transaction, a.authority, resp),
        Err(_) => true,
    }
}

pub open spec fn effects_arrival_checked(a: Arrival<HandleCertificateResponse>) -> bool {
    match a.result {
        Ok(resp) => resp.signed_effects.auth_sig.authority == a.authority,
        Err(_) => true,
    }
}

/// Signed effects come from the authority that sent them.
pub open spec fn effects_responses_checked(arrivals: Seq<Arrival<HandleCertificateResponse>>) -> bool {
    forall|i: int| 0 <= i < arrivals.len() ==> effects_arrival_checked(#[trigger] arrivals[i])
}

/// No authority signs twice.
pub open spec fn signers_distinct(sigs: Seq<AuthoritySignInfo>) -> bool {
    forall|i: int, j: int| 0 <= i < j < sigs.len() ==> sigs[i].authority != sigs[j].authority
}

/// None of `sigs` comes from `name`.
pub open spec fn not_signed_by(sigs: Seq<AuthoritySignInfo>, name: AuthorityName) -> bool {
    forall|i: int| 0 <= i < sigs.len() ==> sigs[i].authority != name
}

/// None of `sigs` comes from an authority among the answers still to come.
pub open spec fn not_yet_heard<V>(sigs: Seq<AuthoritySignInfo>, rest: Seq<Arrival<V>>) -> bool {
    forall|i: int, j: int| 0 <= i < sigs.len() && 0 <= j < rest.len() ==> sigs[i].authority != rest[j].authority
}

/// Each tally holds the stake of its signers, all distinct, and a certificate formed holds a
/// quorum of it.
pub open spec fn effects_backed(
    committee: Committee,
    m: Map<EffectsKey, EffectsTally>,
    cert: Option<EffectsCertView>,
    quorum: int,
) -> bool {
    &&& forall|k: EffectsKey| #[trigger] m.contains_key(k) ==> m[k].0 == sig_stake(committee, m[k].1)
    &&& forall|k: EffectsKey| #[trigger] m.contains_key(k) ==> signers_distinct(m[k].1)
    &&& (cert matches Some(ce) ==> sig_stake(committee, ce.2) >= quorum && signers_distinct(ce.2))
}

/// No tally holds a signature of an authority among the answers still to come.
pub open spec fn effects_fresh<V>(m: Map<EffectsKey, EffectsTally>, rest: Seq<Arrival<V>>) -> bool {
    forall|k: EffectsKey| #[trigger] m.contains_key(k) ==> not_yet_heard(m[k].1, rest)
}

/// A certificate `c` for `transaction`: in the committee's epoch, signed by a quorum of stake;
/// from a past epoch, accepted because its effects gathered a quorum of stake.
pub open spec fn cert_backed(
    committee: Committee,
    transaction: VerifiedTransaction,
    c: CertModel,
    effects_cert: Option<EffectsCertView>,
) -> bool {
    &&& c.0 == transaction
    &&& (c.1 == committee.epoch ==> sig_stake(committee, c.2) >= quorum_of(committee.total() as int)
        && signers_distinct(c.2))
    &&& c.1 <= committee.epoch
    &&& (c.1 != committee.epoch ==> match effects_cert {
        Some(ec) => sig_stake(committee, ec.2) >= quorum_of(committee.total() as int),
        None => false,
    })
}

pub open spec fn tx_backed(committee: Committee, transaction: VerifiedTransaction, m: TxStateModel) -> bool {
    &&& m.good_stake == sig_stake(committee, m.signatures)
    &&& signers_distinct(m.signatures)
    &&& effects_backed(committee, m.effects, m.effects_cert, quorum_of(committee.total() as int))
    &&& (m.certificate matches Some(c) ==> cert_backed(committee, transaction, c, m.effects_cert))
}

proof fn lemma_effects_backed_step(
    committee: Committee,
    m: Map<EffectsKey, EffectsTally>,
    cert: Option<EffectsCertView>,
    e: SignedTransactionEffects,
    name: AuthorityName,
    quorum: int,
)
    requires
        effects_backed(committee, m, cert, quorum),
        e.auth_sig.authority == name,
        forall|k: EffectsKey| #[trigger] m.contains_key(k) ==> not_signed_by(m[k].1, name),
    ensures
        effects_backed(
            committee,
            tally_add(m, e, committee.weight_spec(name)),
            cert_add(m, cert, e, committee.weight_spec(name), quorum),
            quorum,
        ),
        tally_add(m, e, committee.weight_spec(name))[effects_key(e)].0 >= quorum ==> cert_add(
            m,
            cert,
            e,
            committee.weight_spec(name),
            quorum,
        ) is Some,
{
    let w = committee.weight_spec(name);
    let key = effects_key(e);
    let old = if m.contains_key(key) { m[key] } else { (0u64, Seq::<AuthoritySignInfo>::empty(), e.effects) };
    assert(old.1.push(e.auth_sig).drop_last() == old.1);
    assert(sig_stake(committee, Seq::<AuthoritySignInfo>::empty()) == 0);
    let m2 = tally_add(m, e, w);
    assert forall|k: EffectsKey| #[trigger] m2.contains_key(k) implies m2[k].0 == sig_stake(committee, m2[k].1)
        && signers_distinct(m2[k].1) by {
        if k != key {
            assert(m.contains_key(k));
        } else {
            let t = m2[k].1;
            assert forall|i: int, j: int| 0 <= i < j < t.len() implies t[i].authority != t[j].authority by {
                if j == t.len() - 1 && m.contains_key(key) {
                    assert(t[i] == m[key].1[i]);
                    assert(not_signed_by(m[key].1, name));
                }
                if j < t.len() - 1 {
                    assert(t[i] == old.1[i] && t[j] == old.1[j]);
                }
            }
        }
    }
}

proof fn lemma_fresh_step<V>(
    m: Map<EffectsKey, EffectsTally>,
    e: SignedTransactionEffects,
    w: StakeUnit,
    arrivals: Seq<Arrival<V>>,
)
    requires
        effects_fresh(m, arrivals),
        arrivals.len() > 0,
        authorities_distinct(arrivals),
        e.auth_sig.authority == arrivals[0].authority,
    ensures
        effects_fresh(tally_add(m, e, w), arrivals.skip(1)),
        effects_fresh(m, arrivals.skip(1)),
        forall|k: EffectsKey| #[trigger] m.contains_key(k) ==> not_signed_by(m[k].1, arrivals[0].authority),
{
    let rest = arrivals.skip(1);
    let key = effects_key(e);
    let m2 = tally_add(m, e, w);
    assert forall|k: EffectsKey| #[trigger] m.contains_key(k) implies not_signed_by(m[k].1, arrivals[0].authority) by {
        assert(not_yet_heard(m[k].1, arrivals));
    }
    assert forall|k: EffectsKey| #[trigger] m.contains_key(k) implies not_yet_heard(m[k].1, rest) by {
        assert(not_yet_heard(m[k].1, arrivals));
        assert forall|i: int, j: int| 0 <= i < m[k].1.len() && 0 <= j < rest.len() implies m[k].1[i].authority
            != rest[j].authority by {
            assert(rest[j] == arrivals[j + 1]);
        }
    }
    assert forall|k: EffectsKey| #[trigger] m2.contains_key(k) implies not_yet_heard(m2[k].1, rest) by {
        if k != key {
            assert(m.contains_key(k));
        } else {
            let t = m2[k].1;
            assert forall|i: int, j: int| 0 <= i < t.len() && 0 <= j < rest.len() implies t[i].authority
                != rest[j].authority by {
                assert(rest[j] == arrivals[j + 1]);
                if i == t.len() - 1 {
                    assert(arrivals[0].authority != arrivals[j + 1].authority);
                } else {
                    assert(m.contains_key(key));
                    assert(t[i] == m[key].1[i]);
                }
            }
        }
    }
}

proof fn lemma_heard_step<V>(sigs: Seq<AuthoritySignInfo>, arrivals: Seq<Arrival<V>>)
    requires
        not_yet_heard(sigs, arrivals),
        arrivals.len() > 0,
        authorities_distinct(arrivals),
    ensures
        not_yet_heard(sigs, arrivals.skip(1)),
        not_signed_by(sigs, arrivals[0].authority),
        forall|sig: AuthoritySignInfo| sig.authority == arrivals[0].authority ==> not_yet_heard(#[trigger] sigs.push(sig), arrivals.skip(1)),
        authorities_distinct(arrivals.skip(1)),
{
    let rest = arrivals.skip(1);
    assert forall|i: int, j: int| 0 <= i < sigs.len() && 0 <= j < rest.len() implies sigs[i].authority != rest[j].authority by {
        assert(rest[j] == arrivals[j + 1]);
    }
    assert forall|i: int| 0 <= i < sigs.len() implies sigs[i].authority != arrivals[0].authority by {
        assert(arrivals[0] == arrivals[0]);
    }
    assert forall|sig: AuthoritySignInfo| sig.authority == arrivals[0].authority implies not_yet_heard(#[trigger] sigs.push(sig), rest) by {
        let t = sigs.push(sig);
        assert forall|i: int, j: int| 0 <= i < t.len() && 0 <= j < rest.len() implies t[i].authority != rest[j].authority by {
            assert(rest[j] == arrivals[j + 1]);
            if i < sigs.len() {
                assert(t[i] == sigs[i]);
            }
        }
    }
    assert forall|i: int, j: int| 0 <= i < j < rest.len() implies rest[i].authority != rest[j].authority by {
        assert(rest[i] == arrivals[i + 1] && rest[j] == arrivals[j + 1]);
    }
}

proof fn lemma_tx_fold_inv(
    committee: Committee,
    reducer: ProcessTransactionReducer,
    state: TxStateModel,
    timeout: u64,
    arrivals: Seq<Arrival<TransactionInfoResponse>>,
)
    requires
        tx_backed(committee, reducer.transaction, state),
        tx_responses_checked(committee, reducer.transaction, arrivals),
        authorities_distinct(arrivals),
        effects_fresh(state.effects, arrivals),
        not_yet_heard(state.signatures, arrivals),
        reducer.epoch == committee.epoch,
        reducer.quorum_threshold == quorum_of(committee.total() as int),
    ensures
        fold_spec(committee, reducer, state, timeout, arrivals) matches Some(m) ==> tx_backed(committee, reducer.transaction, m),
    decreases arrivals.len(),
{
    if arrivals.len() > 0 && arrivals[0].delay_ms <= timeout {
        let a = arrivals[0];
        let w = committee.weight_spec(a.authority);
        let q = quorum_of(committee.total() as int);
        let tx = reducer.transaction;
        let rest = arrivals.skip(1);
        let st1 = reducer.absorb_model(state, a.authority, w, a.result);
        lemma_heard_step(state.signatures, arrivals);
        assert(effects_fresh(state.effects, rest) && tx_backed(committee, tx, st1) && effects_fresh(st1.effects, rest)
            && not_yet_heard(st1.signatures, rest)) by {
            lemma_fresh_any(state.effects, arrivals);
            match a.result {
                Ok(resp) => {
                    assert(tx_arrival_checked(committee, tx, arrivals[0]));
                    match resp.certified_transaction {
                        Some(c) => {
                            if c.epoch > reducer.epoch {
                                lemma_signed_backed(committee, reducer, state, resp.signed_transaction, a.authority);
                            } else if c.epoch < reducer.epoch {
                                match resp.signed_effects {
                                    Some(e) => {
                                        lemma_fresh_step(state.effects, e, w, arrivals);
                                        lemma_effects_backed_step(committee, state.effects, state.effects_cert, e, a.authority, q);
                                    },
                                    None => {
                                        lemma_signed_backed(committee, reducer, state, resp.signed_transaction, a.authority);
                                    },
                                }
                            }
                        },
                        None => {
                            lemma_signed_backed(committee, reducer, state, resp.signed_transaction, a.authority);
                        },
                    }
                },
                Err(_) => {},
            }
        }
        assert(tx_responses_checked(committee, tx, rest)) by {
            assert forall|i: int| 0 <= i < rest.len() implies tx_arrival_checked(committee, tx, #[trigger] rest[i]) by {
                assert(rest[i] == arrivals[i + 1]);
            }
        }
        lemma_tx_fold_inv(committee, reducer, st1, timeout, rest);
    }
}

proof fn lemma_fresh_any<V>(m: Map<EffectsKey, EffectsTally>, arrivals: Seq<Arrival<V>>)
    requires
        effects_fresh(m, arrivals),
        arrivals.len() > 0,
    ensures
        effects_fresh(m, arrivals.skip(1)),
{
    let rest = arrivals.skip(1);
    assert forall|k: EffectsKey| #[trigger] m.contains_key(k) implies not_yet_heard(m[k].1, rest) by {
        assert(not_yet_heard(m[k].1, arrivals));
        assert forall|i: int, j: int| 0 <= i < m[k].1.len() && 0 <= j < rest.len() implies m[k].1[i].authority
            != rest[j].authority by {
            assert(rest[j] == arrivals[j + 1]);
        }
    }
}

proof fn lemma_signed_backed(
    committee: Committee,
    reducer: ProcessTransactionReducer,
    state: TxStateModel,
    signed: Option<SignedTransaction>,
    name: AuthorityName,
)
    requires
        tx_backed(committee, reducer.transaction, state),
        not_signed_by(state.signatures, name),
        signed matches Some(t) ==> t.auth_sig.authority == name,
        reducer.epoch == committee.epoch,
        reducer.quorum_threshold == quorum_of(committee.total() as int),
    ensures
        tx_backed(committee, reducer.transaction, reducer.no_cert_model(state, signed, committee.weight_spec(name))),
{
    if let Some(t) = signed {
        let p = state.signatures.push(t.auth_sig);
        assert(p.drop_last() == state.signatures);
        assert forall|i: int, j: int| 0 <= i < j < p.len() implies p[i].authority != p[j].authority by {
            if j < p.len() - 1 {
                assert(p[i] == state.signatures[i] && p[j] == state.signatures[j]);
            } else {
                assert(p[i] == state.signatures[i]);
            }
        }
    }
}

proof fn lemma_cert_fold_inv(
    committee: Committee,
    reducer: ProcessCertificateReducer,
    state: CertStateModel,
    timeout: u64,
    arrivals: Seq<Arrival<HandleCertificateResponse>>,
)
    requires
        effects_backed(committee, state.effects, state.effects_cert, reducer.quorum_threshold as int),
        effects_responses_checked(arrivals),
        authorities_distinct(arrivals),
        effects_fresh(state.effects, arrivals),
    ensures
        fold_spec(committee, reducer, state, timeout, arrivals) matches Some(m) ==> effects_backed(
            committee,
            m.effects,
            m.effects_cert,
            reducer.quorum_threshold as int,
        ),
    decreases arrivals.len(),
{
    if arrivals.len() > 0 && arrivals[0].delay_ms <= timeout {
        let a = arrivals[0];
        let rest = arrivals.skip(1);
        let w = committee.weight_spec(a.authority);
        assert(effects_arrival_checked(arrivals[0]));
        lemma_fresh_any(state.effects, arrivals);
        lemma_heard_step(Seq::<AuthoritySignInfo>::empty(), arrivals);
        if let Ok(resp) = a.result {
            lemma_fresh_step(state.effects, resp.signed_effects, w, arrivals);
            lemma_effects_backed_step(committee, state.effects, state.effects_cert, resp.signed_effects, a.authority, reducer.quorum_threshold as int);
        }
        assert(effects_responses_checked(rest)) by {
            assert forall|i: int| 0 <= i < rest.len() implies effects_arrival_checked(#[trigger] rest[i]) by {
                assert(rest[i] == arrivals[i + 1]);
            }
        }
        match reducer.reduce_spec(state, a.authority, w, a.result) {
            Some(ReduceOutput::Continue(s)) => lemma_cert_fold_inv(committee, reducer, s, timeout, rest),
            Some(ReduceOutput::ContinueWithTimeout(s, t)) => lemma_cert_fold_inv(committee, reducer, s, t, rest),
            _ => {},
        }
    }
}

proof fn lemma_tx_fold_total(
    committee: Committee,
    reducer: ProcessTransactionReducer,
    state: TxStateModel,
    timeout: u64,
    arrivals: Seq<Arrival<TransactionInfoResponse>>,
)
    ensures
        fold_spec(committee, reducer, state, timeout, arrivals) is Some,
    decreases arrivals.len(),
{
    if arrivals.len() > 0 && arrivals[0].delay_ms <= timeout {
        let a = arrivals[0];
        match reducer.reduce_spec(state, a.authority, committee.weight_spec(a.authority), a.result) {
            Some(ReduceOutput::Continue(s)) => lemma_tx_fold_total(committee, reducer, s, timeout, arrivals.skip(1)),
            Some(ReduceOutput::ContinueWithTimeout(s, t)) => lemma_tx_fold_total(committee, reducer, s, t, arrivals.skip(1)),
            _ => {},
        }
    }
}

proof fn lemma_cert_fold_total(
    committee: Committee,
    reducer: ProcessCertificateReducer,
    state: CertStateModel,
    timeout: u64,
    arrivals: Seq<Arrival<HandleCertificateResponse>>,
)
    ensures
        fold_spec(committee, reducer, state, timeout, arrivals) is Some,
    decreases arrivals.len(),
{
    if arrivals.len() > 0 && arrivals[0].delay_ms <= timeout {
        let a = arrivals[0];
        match reducer.reduce_spec(state, a.authority, committee.weight_spec(a.authority), a.result) {
            Some(ReduceOutput::Continue(s)) => lemma_cert_fold_total(committee, reducer, s, timeout, arrivals.skip(1)),
            Some(ReduceOutput::ContinueWithTimeout(s, t)) => lemma_cert_fold_total(committee, reducer, s, t, arrivals.skip(1)),
            _ => {},
        }
    }
}

/// `a - b`, or 0 where `b` is larger.
pub open spec fn sat_sub(a: StakeUnit, b: StakeUnit) -> StakeUnit {
    if a >= b {
        (a - b) as u64
    } else {
        0
    }
}

/// The tally after `weight` more stake for `k`.
pub open spec fn stake_inc(m: Map<u64, StakeUnit>, k: u64, weight: StakeUnit) -> Map<u64, StakeUnit> {
    m.insert(k, sat_add(if m.contains_key(k) { m[k] } else { 0 }, weight))
}

/// Adds `weight` to the stake of `k`; returns the new stake of `k`.
pub fn add_stake(m: &mut BTreeMap<u64, StakeUnit>, k: u64, weight: StakeUnit) -> (r: StakeUnit)
    ensures
        final(m)@ == stake_inc(old(m)@, k, weight),
        r == final(m)@[k],
{
    broadcast use vstd::std_specs::btree::group_btree_axioms, vstd::laws_cmp::group_laws_cmp;

    let cur: StakeUnit = match m.get(&k) {
        Some(v) => *v,
        None => 0,
    };
    let v = cur.saturating_add(weight);
    m.insert(k, v);
    v
}

/// The state of looking for the true effects of a certificate, as plain values.
pub struct ExecuteCertModel {
    pub cumulative_weight: StakeUnit,
    pub good_weight: StakeUnit,
    pub digests: Map<TransactionEffectsDigest, StakeUnit>,
    pub true_effects: Option<SignedTransactionEffects>,
    pub errors: Seq<(AuthorityName, SuiError)>,
}

/// What executing a certificate on other authorities has gathered so far.
pub struct ExecuteCertState {
    /// Stake of every authority heard from.
    pub cumulative_weight: StakeUnit,
    /// Stake of those that returned effects.
    pub good_weight: StakeUnit,
    /// Stake per effects digest.
    pub digests: BTreeMap<TransactionEffectsDigest, StakeUnit>,
    /// Effects returned by a validity threshold of stake.
    pub true_effects: Option<SignedTransactionEffects>,
    pub errors: Vec<(AuthorityName, SuiError)>,
}

impl View for ExecuteCertState {
    type V = ExecuteCertModel;

    open spec fn view(&self) -> ExecuteCertModel {
        ExecuteCertModel {
            cumulative_weight: self.cumulative_weight,
            good_weight: self.good_weight,
            digests: self.digests@,
            true_effects: self.true_effects,
            errors: self.errors@,
        }
    }
}

pub open spec fn execute_initial_model() -> ExecuteCertModel {
    ExecuteCertModel {
        cumulative_weight: 0,
        good_weight: 0,
        digests: Map::empty(),
        true_effects: None,
        errors: Seq::empty(),
    }
}

impl ExecuteCertState {
    /// The true effects, else every authority's error.
    pub fn into_true_effects(self) -> (r: Result<SignedTransactionEffects, SuiError>)
        ensures
            match r {
                Ok(e) => self@.true_effects == Some(e),
                Err(err) => self@.true_effects is None && match err {
                    SuiError::TooManyIncorrectAuthorities { errors, action } => errors@ == self@.errors
                        && action@ == "execute_cert_to_true_effects"@,
                    _ => false,
                },
            },
    {
        match self.true_effects {
            Some(e) => Ok(e),
            None => {
                proof {
                    reveal_strlit("execute_cert_to_true_effects");
                }
                Err(
                    SuiError::TooManyIncorrectAuthorities {
                        errors: self.errors,
                        action: "execute_cert_to_true_effects".to_owned(),
                    },
                )
            },
        }
    }

    pub fn new() -> (r: ExecuteCertState)
        ensures
            r@ == execute_initial_model(),
    {
        ExecuteCertState {
            cumulative_weight: 0,
            good_weight: 0,
            digests: BTreeMap::new(),
            true_effects: None,
            errors: Vec::new(),
        }
    }
}

/// Folds signed effects until one digest is backed by a validity threshold of stake, so at
/// least one honest authority computed it; stops early once that can no longer happen.
pub struct ExecuteCertReducer {
    pub validity_threshold: StakeUnit,
    pub total_weight: StakeUnit,
}

impl ExecuteCertReducer {
    /// Stop unless the stake not yet heard from could still bring the good stake to validity.
    pub open spec fn decide_model(&self, st: ExecuteCertModel) -> ReduceOutput<ExecuteCertModel> {
        if sat_add(sat_sub(self.total_weight, st.cumulative_weight), st.good_weight) < self.validity_threshold {
            ReduceOutput::End(st)
        } else {
            ReduceOutput::Continue(st)
        }
    }
}

impl Reducer<ExecuteCertState, HandleCertificateResponse> for ExecuteCertReducer {
    open spec fn reduce_spec(
        &self,
        st: ExecuteCertModel,
        name: AuthorityName,
        weight: StakeUnit,
        result: Result<HandleCertificateResponse, SuiError>,
    ) -> Option<ReduceOutput<ExecuteCertModel>> {
        let cumulative = sat_add(st.cumulative_weight, weight);
        match result {
            Ok(resp) => {
                let d = resp.signed_effects.effects.digest;
                let ds = stake_inc(st.digests, d, weight);
                let st1 = ExecuteCertModel {
                    cumulative_weight: cumulative,
                    good_weight: sat_add(st.good_weight, weight),
                    digests: ds,
                    ..st
                };
                if ds[d] >= self.validity_threshold {
                    Some(ReduceOutput::End(ExecuteCertModel { true_effects: Some(resp.signed_effects), ..st1 }))
                } else {
                    Some(self.decide_model(st1))
                }
            },
            Err(e) => Some(
                self.decide_model(
                    ExecuteCertModel { cumulative_weight: cumulative, errors: st.errors.push((name, e)), ..st },
                ),
            ),
        }
    }

    open spec fn fails_with(
        &self,
        state: ExecuteCertModel,
        name: AuthorityName,
        weight: StakeUnit,
        result: Result<HandleCertificateResponse, SuiError>,
        err: SuiError,
    ) -> bool {
        false
    }

    open spec fn state_inv(&self, state: ExecuteCertState) -> bool {
        true
    }

    fn reduce(
        &self,
        state: ExecuteCertState,
        name: AuthorityName,
        weight: StakeUnit,
        result: Result<HandleCertificateResponse, SuiError>,
    ) -> (r: Result<ReduceOutput<ExecuteCertState>, SuiError>) {
        let mut state = state;
        state.cumulative_weight = state.cumulative_weight.saturating_add(weight);
        match result {
            Ok(resp) => {
                state.good_weight = state.good_weight.saturating_add(weight);
                let stake = add_stake(&mut state.digests, resp.signed_effects.effects.digest, weight);
                if stake >= self.validity_threshold {
                    state.true_effects = Some(resp.signed_effects);
                    return Ok(ReduceOutput::End(state));
                }
            },
            Err(e) => {
                state.errors.push((name, e));
            },
        }
        let remaining = self.total_weight.saturating_sub(state.cumulative_weight);
        if remaining.saturating_add(state.good_weight) < self.validity_threshold {
            Ok(ReduceOutput::End(state))
        } else {
            Ok(ReduceOutput::Continue(state))
        }
    }
}

proof fn lemma_execute_fold_total(
    committee: Committee,
    reducer: ExecuteCertReducer,
    state: ExecuteCertModel,
    timeout: u64,
    arrivals: Seq<Arrival<HandleCertificateResponse>>,
)
    ensures
        fold_spec(committee, reducer, state, timeout, arrivals) is Some,
    decreases arrivals.len(),
{
    if arrivals.len() > 0 && arrivals[0].delay_ms <= timeout {
        let a = arrivals[0];
        match reducer.reduce_spec(state, a.authority, committee.weight_spec(a.authority), a.result) {
            Some(ReduceOutput::Continue(s)) => lemma_execute_fold_total(committee, reducer, s, timeout, arrivals.skip(1)),
            Some(ReduceOutput::ContinueWithTimeout(s, t)) => lemma_execute_fold_total(committee, reducer, s, t, arrivals.skip(1)),
            _ => {},
        }
    }
}

/// What an authority's answer to a request for a transaction gives: its certificate, else its
/// signed form; an authority that knows neither is suspect.
pub fn classify_transaction_info(
    authority: AuthorityName,
    response: TransactionInfoResponse,
) -> (r: Result<(Option<SignedTransaction>, Option<CertifiedTransaction>), SuiError>)
    ensures
        match response.certified_transaction {
            Some(c) => r matches Ok((None, Some(c1))) && cert_model(c1) == cert_model(c),
            None => match response.signed_transaction {
                Some(t) => r == Ok::<(Option<SignedTransaction>, Option<CertifiedTransaction>), SuiError>((Some(t), None)),
                None => r matches Err(SuiError::ByzantineAuthoritySuspicion { authority: a }) && a == authority,
            },
        },
{
    let TransactionInfoResponse { signed_transaction, certified_transaction, signed_effects: _ } = response;
    if let Some(c) = certified_transaction {
        return Ok((None, Some(c)));
    }
    if let Some(t) = signed_transaction {
        return Ok((Some(t), None));
    }
    Err(SuiError::ByzantineAuthoritySuspicion { authority })
}

/// What an authority's answer to a request for a transaction and its effects gives: both, or
/// an error. Where the authority was asked because it claimed to have them
/// (`authorities_known`), a missing part makes it suspect; else the transaction is not found.
pub fn classify_transaction_and_effects(
    authority: AuthorityName,
    digest: TransactionDigest,
    authorities_known: bool,
    response: TransactionAndEffectsInfoResponse,
) -> (r: Result<(CertifiedTransaction, SignedTransactionEffects), SuiError>)
    ensures
        match (response.certified_transaction, response.signed_effects) {
            (Some(c), Some(e)) => r matches Ok((c1, e1)) && cert_model(c1) == cert_model(c) && e1 == e,
            _ => if authorities_known {
                r matches Err(SuiError::ByzantineAuthoritySuspicion { authority: a }) && a == authority
            } else {
                r matches Err(SuiError::TransactionNotFound { digest: d }) && d == digest
            },
        },
{
    match (response.certified_transaction, response.signed_effects) {
        (Some(c), Some(e)) => Ok((c, e)),
        _ => if authorities_known {
            Err(SuiError::ByzantineAuthoritySuspicion { authority })
        } else {
            Err(SuiError::TransactionNotFound { digest })
        },
    }
}

} // verus!
