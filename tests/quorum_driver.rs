use std::collections::BTreeMap;

use quorum_core::aggregation::Arrival;
use quorum_core::authority_aggregator::AuthorityAggregator;
use quorum_core::committee::Committee;
use quorum_core::messages::{
    AuthoritySignInfo, CertifiedTransaction, CertifiedTransactionEffects, ConflictingTransaction,
    HandleCertificateResponse, SignedTransaction, SignedTransactionEffects, SuiError,
    TransactionEffects, TransactionInfoResponse, VerifiedTransaction,
};
use quorum_core::quorum_driver::{
    backoff_delay_ms, conflict_resolution, conflicting_transactions_error,
    convert_to_quorum_driver_error_if_nonretryable, task_ready, CertificationFailure,
    ConflictResolution, QuorumDriver, QuorumDriverError, QuorumDriverTask, TaskAction,
    TX_MAX_RETRY_TIMES,
};
use quorum_core::quorum_driver::{conflict_attempt_step, ConflictAttempt};
use quorum_core::quorum_driver::conflict_retry_report;

const T1: u64 = 0x71;
const T2: u64 = 0x72;

fn committee() -> Committee {
    Committee::new(5, vec![(1, 1), (2, 1), (3, 1), (4, 1)]).unwrap()
}

fn driver(max_retry_times: u8) -> QuorumDriver {
    QuorumDriver::new(AuthorityAggregator::new(committee()), max_retry_times)
}

fn tx() -> VerifiedTransaction {
    VerifiedTransaction { digest: T1 }
}

fn cert() -> CertifiedTransaction {
    CertifiedTransaction {
        transaction: tx(),
        epoch: 5,
        signatures: vec![AuthoritySignInfo { epoch: 5, authority: 1 }],
    }
}

fn conflict(stake: u64, reporters: &[u64]) -> ConflictingTransaction {
    ConflictingTransaction {
        lock_records: reporters.iter().map(|a| (*a, (100, 1, 2))).collect(),
        total_stake: stake,
    }
}

fn conflicts(entries: Vec<(u64, ConflictingTransaction)>) -> BTreeMap<u64, ConflictingTransaction> {
    entries.into_iter().collect()
}

fn generic() -> SuiError {
    SuiError::GenericAuthorityError { error: "unavailable".to_string() }
}

#[test]
fn backoff_doubles_from_two_hundred_ms() {
    assert_eq!(backoff_delay_ms(0), 200);
    assert_eq!(backoff_delay_ms(1), 400);
    assert_eq!(backoff_delay_ms(9), 200 * 512);
    assert_eq!(backoff_delay_ms(56), 200 * (1u64 << 56));
    assert_eq!(backoff_delay_ms(57), u64::MAX);
    assert_eq!(backoff_delay_ms(255), u64::MAX);
}

#[test]
fn failing_transaction_is_retried_max_times() {
    let d = driver(TX_MAX_RETRY_TIMES);
    let mut task = QuorumDriver::new_task(tx(), 1_000);
    let mut now = 1_000u64;
    let mut retries = 0u32;
    let mut delays: Vec<u64> = vec![];
    loop {
        assert!(task_ready(&task, now));
        match d.after_certification(task, Err(generic()), now) {
            TaskAction::Requeue(t) => {
                retries += 1;
                assert_eq!(t.retry_times as u32, retries);
                assert!(t.tx_cert.is_none());
                delays.push(t.next_retry_after - now);
                assert!(!task_ready(&t, now));
                now = t.next_retry_after;
                task = t;
            }
            TaskAction::NotifyFailure(QuorumDriverError::FailedAfterMaximumAttempts { total_attempts }) => {
                assert_eq!(total_attempts, TX_MAX_RETRY_TIMES + 1);
                break;
            }
            _ => panic!("unexpected action"),
        }
    }
    assert_eq!(retries, TX_MAX_RETRY_TIMES as u32);
    assert_eq!(delays[0], 200);
    for w in delays.windows(2) {
        assert_eq!(w[1], 2 * w[0]);
    }
}

#[test]
fn execution_failure_keeps_the_certificate() {
    let d = driver(3);
    let task = QuorumDriverTask { transaction: tx(), tx_cert: Some(cert()), retry_times: 1, next_retry_after: 0 };
    match d.after_execution(task, Err(SuiError::TimeoutError), 50) {
        TaskAction::Requeue(t) => {
            assert_eq!(t.retry_times, 2);
            assert_eq!(t.next_retry_after, 450);
            assert_eq!(t.tx_cert.unwrap().signatures, cert().signatures);
        }
        _ => panic!("expected a retry"),
    }
}

#[test]
fn execution_success_is_delivered() {
    let d = driver(3);
    let task = QuorumDriverTask { transaction: tx(), tx_cert: Some(cert()), retry_times: 0, next_retry_after: 0 };
    let effects = CertifiedTransactionEffects {
        effects: TransactionEffects { transaction_digest: T1, digest: 9 },
        epoch: 5,
        signatures: vec![],
    };
    match d.after_execution(task, Ok(effects), 0) {
        TaskAction::NotifySuccess(resp) => {
            assert_eq!(resp.tx_cert.transaction, tx());
            assert_eq!(resp.effects_cert.effects.digest, 9);
        }
        _ => panic!("expected success"),
    }
}

#[test]
fn certificate_moves_task_to_execution() {
    let d = driver(3);
    let task = QuorumDriver::new_task(tx(), 7);
    match d.after_certification(task, Ok(cert()), 9) {
        TaskAction::ProcessCertificate(t) => {
            assert_eq!(t.retry_times, 0);
            assert_eq!(t.next_retry_after, 7);
            assert!(t.tx_cert.is_some());
        }
        _ => panic!("expected execution"),
    }
}

#[test]
fn only_conflict_errors_are_terminal() {
    assert!(convert_to_quorum_driver_error_if_nonretryable(SuiError::TimeoutError).is_none());
    let err = conflicting_transactions_error(conflicts(vec![(T2, conflict(3, &[1, 2, 3]))]), Some((T2, false)));
    match convert_to_quorum_driver_error_if_nonretryable(err) {
        Some(QuorumDriverError::ObjectsDoubleUsed { conflicting_txes, retried_tx, retried_tx_success }) => {
            assert_eq!(conflicting_txes.len(), 1);
            assert_eq!(retried_tx, Some(T2));
            assert_eq!(retried_tx_success, Some(false));
        }
        _ => panic!("expected ObjectsDoubleUsed"),
    }
}

#[test]
fn conflict_below_validity_good_stake_is_retried() {
    // validity threshold 2: good stake 1, rival reported by stake 2
    let cs = conflicts(vec![(0x80, conflict(1, &[4])), (T2, conflict(2, &[1, 3]))]);
    match conflict_resolution(1, &cs, 2) {
        ConflictResolution::RetryConflicting { tx_digest, validators } => {
            assert_eq!(tx_digest, T2);
            assert_eq!(validators, vec![1, 3]);
        }
        _ => panic!("expected a retry of the rival"),
    }
}

#[test]
fn conflict_with_both_above_validity_is_equivocation() {
    let cs = conflicts(vec![(T2, conflict(2, &[1, 2]))]);
    assert!(matches!(conflict_resolution(2, &cs, 2), ConflictResolution::Equivocation));
    assert!(matches!(conflict_resolution(3, &cs, 2), ConflictResolution::Equivocation));
}

#[test]
fn conflict_policy_other_cases() {
    let weak = conflicts(vec![(T2, conflict(1, &[1]))]);
    assert!(matches!(conflict_resolution(2, &weak, 2), ConflictResolution::OriginalLikelyToSucceed));
    assert!(matches!(conflict_resolution(1, &weak, 2), ConflictResolution::InsufficientEvidence));
    assert!(matches!(conflict_resolution(1, &BTreeMap::new(), 2), ConflictResolution::NoConflicts));
    let tied = conflicts(vec![(0x90, conflict(2, &[1, 2])), (0x85, conflict(2, &[3, 4]))]);
    match conflict_resolution(0, &tied, 2) {
        ConflictResolution::RetryConflicting { tx_digest, .. } => assert_eq!(tx_digest, 0x85),
        _ => panic!("expected a retry"),
    }
}

fn lock_conflict() -> SuiError {
    SuiError::ObjectLockConflict { obj_ref: (100, 1, 2), pending_transaction: T2 }
}

fn run_conflict_scenario(retried_tx_success: bool) {
    let d = driver(TX_MAX_RETRY_TIMES);
    let sign = TransactionInfoResponse {
        signed_transaction: Some(SignedTransaction {
            transaction: tx(),
            auth_sig: AuthoritySignInfo { epoch: 5, authority: 4 },
        }),
        certified_transaction: None,
        signed_effects: None,
    };
    let arrivals = vec![
        Arrival { authority: 4, delay_ms: 5, result: Ok(sign) },
        Arrival { authority: 1, delay_ms: 5, result: Err(lock_conflict()) },
        Arrival { authority: 2, delay_ms: 5, result: Err(lock_conflict()) },
        Arrival { authority: 3, delay_ms: 5, result: Err(lock_conflict()) },
    ];
    let err = d.validators.process_transaction(tx(), arrivals).unwrap_err();
    let (conflicting_txes, resolution) = match d.on_certification_failure(err) {
        CertificationFailure::Conflicts { conflicting_txes, resolution } => (conflicting_txes, resolution),
        CertificationFailure::Other(e) => panic!("unexpected {:?}", e),
    };
    let retried = match resolution {
        ConflictResolution::RetryConflicting { tx_digest, validators } => {
            assert_eq!(tx_digest, T2);
            assert_eq!(validators, vec![1, 2, 3]);
            Some((tx_digest, retried_tx_success))
        }
        _ => panic!("expected the conflicting transaction to be retried"),
    };
    let err = conflicting_transactions_error(conflicting_txes, retried);
    match d.after_certification(QuorumDriver::new_task(tx(), 0), Err(err), 0) {
        TaskAction::NotifyFailure(QuorumDriverError::ObjectsDoubleUsed {
            conflicting_txes,
            retried_tx,
            retried_tx_success: ok,
        }) => {
            assert_eq!(conflicting_txes.len(), 1);
            assert_eq!(conflicting_txes[&T2].total_stake, 3);
            assert_eq!(retried_tx, Some(T2));
            assert_eq!(ok, Some(retried_tx_success));
        }
        _ => panic!("expected ObjectsDoubleUsed"),
    }
}

#[test]
fn conflicting_transaction_retried_successfully() {
    run_conflict_scenario(true);
}

#[test]
fn conflicting_transaction_retried_unsuccessfully() {
    run_conflict_scenario(false);
}

#[test]
fn other_certification_failures_pass_through() {
    let d = driver(1);
    let err = SuiError::QuorumFailedToProcessTransaction { good_stake: 1, errors: vec![], conflicting_tx_digests: BTreeMap::new() };
    assert!(matches!(
        d.on_certification_failure(err),
        CertificationFailure::Other(SuiError::QuorumFailedToProcessTransaction { .. })
    ));
    assert!(matches!(d.on_certification_failure(SuiError::TimeoutError), CertificationFailure::Other(SuiError::TimeoutError)));
}

#[test]
fn new_committee_replaces_the_old() {
    let mut d = driver(2);
    assert_eq!(d.current_epoch(), 5);
    d.update_validators(AuthorityAggregator::new(Committee::new(6, vec![(1, 1)]).unwrap()));
    assert_eq!(d.current_epoch(), 6);
    assert_eq!(d.max_retry_times, 2);
}

#[test]
fn conflict_attempt_prefers_the_certificate() {
    let signed = SignedTransaction { transaction: VerifiedTransaction { digest: T2 }, auth_sig: AuthoritySignInfo { epoch: 5, authority: 1 } };
    assert!(matches!(conflict_attempt_step(Some(signed), Some(cert())), Ok(ConflictAttempt::ProcessCertificate(_))));
    match conflict_attempt_step(Some(signed), None) {
        Ok(ConflictAttempt::ExecuteTransaction(t)) => assert_eq!(t.digest, T2),
        _ => panic!("expected execution"),
    }
    assert!(matches!(conflict_attempt_step(None, None), Err(SuiError::GenericAuthorityError { .. })));
}

#[test]
fn driver_certifies_and_collects_effects() {
    let d = driver(3);
    let sign = |a: u64| TransactionInfoResponse {
        signed_transaction: Some(SignedTransaction { transaction: tx(), auth_sig: AuthoritySignInfo { epoch: 5, authority: a } }),
        certified_transaction: None,
        signed_effects: None,
    };
    let arrivals = vec![
        Arrival { authority: 1, delay_ms: 1, result: Ok(sign(1)) },
        Arrival { authority: 2, delay_ms: 1, result: Ok(sign(2)) },
        Arrival { authority: 3, delay_ms: 1, result: Ok(sign(3)) },
    ];
    let c = d.process_transaction(tx(), arrivals).unwrap();
    assert_eq!(c.signatures.len(), 3);
    let effects = |a: u64| HandleCertificateResponse {
        signed_effects: SignedTransactionEffects {
            effects: TransactionEffects { transaction_digest: T1, digest: 0xe },
            auth_sig: AuthoritySignInfo { epoch: 5, authority: a },
        },
    };
    let arrivals = vec![
        Arrival { authority: 2, delay_ms: 1, result: Ok(effects(2)) },
        Arrival { authority: 3, delay_ms: 1, result: Ok(effects(3)) },
        Arrival { authority: 4, delay_ms: 1, result: Ok(effects(4)) },
    ];
    let resp = d.process_certificate(c, arrivals).unwrap();
    assert_eq!(resp.tx_cert.signatures.len(), 3);
    assert_eq!(resp.effects_cert.effects.digest, 0xe);
}

#[test]
fn driver_sorts_plain_certification_failure() {
    let d = driver(3);
    let arrivals = vec![
        Arrival { authority: 1, delay_ms: 1, result: Err(SuiError::TimeoutError) },
        Arrival { authority: 2, delay_ms: 1, result: Err(SuiError::TimeoutError) },
        Arrival { authority: 3, delay_ms: 1, result: Err(SuiError::TimeoutError) },
    ];
    match d.process_transaction(tx(), arrivals) {
        Err(CertificationFailure::Other(SuiError::QuorumFailedToProcessTransaction { good_stake, errors, .. })) => {
            assert_eq!(good_stake, 0);
            assert_eq!(errors.len(), 3);
        }
        _ => panic!("expected a plain failure"),
    }
}

#[test]
fn committee_copy_matches() {
    let d = driver(1);
    let c = d.clone_committee();
    assert_eq!(c.epoch, 5);
    assert_eq!(c.total_stake(), 4);
    assert_eq!(c.weight(3), 1);
    assert_eq!(d.authority_aggregator().committee.epoch, 5);
}

#[test]
fn conflict_retry_reports_only_made_attempts() {
    assert_eq!(conflict_retry_report(T2, Ok(true)), Some((T2, true)));
    assert_eq!(conflict_retry_report(T2, Ok(false)), Some((T2, false)));
    assert_eq!(conflict_retry_report(T2, Err(SuiError::TimeoutError)), None);
}
