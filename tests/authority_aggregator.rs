use quorum_core::aggregation::{
    quorum_map_then_reduce_with_timeout, Arrival, ReduceOutput, Reducer,
};
use quorum_core::authority_aggregator::{
    AuthorityAggregator, ProcessCertificateReducer, ProcessCertificateState,
    ProcessTransactionReducer, ProcessTransactionState, TimeoutConfig,
};
use quorum_core::committee::Committee;
use quorum_core::messages::{
    AuthoritySignInfo, CertifiedTransaction, HandleCertificateResponse, SignedTransaction,
    SignedTransactionEffects, SuiError, TransactionEffects, TransactionInfoResponse,
    VerifiedTransaction,
};
use quorum_core::aggregation::{reduce_step, FoldStep};
use quorum_core::authority_aggregator::classify_transaction_and_effects;
use quorum_core::authority_aggregator::classify_transaction_info;
use quorum_core::messages::TransactionAndEffectsInfoResponse;

const T1: u64 = 0x71;
const T2: u64 = 0x72;
const D1: u64 = 0xd1;
const D2: u64 = 0xd2;

fn aggregator() -> AuthorityAggregator {
    AuthorityAggregator::new(Committee::new(5, vec![(1, 1), (2, 1), (3, 1), (4, 1)]).unwrap())
}

fn tx() -> VerifiedTransaction {
    VerifiedTransaction { digest: T1 }
}

fn signed_response(authority: u64, epoch: u64) -> TransactionInfoResponse {
    TransactionInfoResponse {
        signed_transaction: Some(SignedTransaction {
            transaction: tx(),
            auth_sig: AuthoritySignInfo { epoch, authority },
        }),
        certified_transaction: None,
        signed_effects: None,
    }
}

fn arrival<V>(authority: u64, delay_ms: u64, result: Result<V, SuiError>) -> Arrival<V> {
    Arrival { authority, delay_ms, result }
}

fn effects_response(authority: u64, digest: u64) -> HandleCertificateResponse {
    HandleCertificateResponse {
        signed_effects: SignedTransactionEffects {
            effects: TransactionEffects { transaction_digest: T1, digest },
            auth_sig: AuthoritySignInfo { epoch: 5, authority },
        },
    }
}

fn certificate() -> CertifiedTransaction {
    CertifiedTransaction { transaction: tx(), epoch: 5, signatures: vec![] }
}

#[test]
fn three_signatures_make_a_certificate() {
    let agg = aggregator();
    let arrivals = vec![
        arrival(2, 10, Ok(signed_response(2, 5))),
        arrival(4, 10, Ok(signed_response(4, 5))),
        arrival(1, 10, Ok(signed_response(1, 5))),
        arrival(3, 10, Ok(signed_response(3, 5))),
    ];
    let cert = agg.process_transaction(tx(), arrivals).unwrap();
    assert_eq!(cert.transaction, tx());
    assert_eq!(cert.epoch, 5);
    let signers: Vec<u64> = cert.signatures.iter().map(|s| s.authority).collect();
    assert_eq!(signers, vec![2, 4, 1]);
}

#[test]
fn signatures_of_another_epoch_do_not_count() {
    let agg = aggregator();
    let arrivals = vec![
        arrival(1, 10, Ok(signed_response(1, 5))),
        arrival(2, 10, Ok(signed_response(2, 4))),
        arrival(3, 10, Ok(signed_response(3, 5))),
    ];
    match agg.process_transaction(tx(), arrivals) {
        Err(SuiError::QuorumFailedToProcessTransaction { good_stake, errors, conflicting_tx_digests }) => {
            assert_eq!(good_stake, 2);
            assert_eq!(errors.len(), 1);
            assert!(matches!(errors[0], SuiError::UnexpectedResultFromValidatorHandleTransaction));
            assert!(conflicting_tx_digests.is_empty());
        }
        other => panic!("unexpected {:?}", other),
    }
}

#[test]
fn certificate_of_current_epoch_is_taken_at_once() {
    let agg = aggregator();
    let resp = TransactionInfoResponse {
        signed_transaction: None,
        certified_transaction: Some(CertifiedTransaction {
            transaction: tx(),
            epoch: 5,
            signatures: vec![
                AuthoritySignInfo { epoch: 5, authority: 1 },
                AuthoritySignInfo { epoch: 5, authority: 2 },
                AuthoritySignInfo { epoch: 5, authority: 4 },
            ],
        }),
        signed_effects: None,
    };
    let cert = agg.process_transaction(tx(), vec![arrival(3, 1, Ok(resp))]).unwrap();
    let signers: Vec<u64> = cert.signatures.iter().map(|s| s.authority).collect();
    assert_eq!(signers, vec![1, 2, 4]);
}

#[test]
fn old_certificate_counts_after_a_quorum_of_effects() {
    let agg = aggregator();
    let old_cert = |a: u64| TransactionInfoResponse {
        signed_transaction: None,
        certified_transaction: Some(CertifiedTransaction { transaction: tx(), epoch: 4, signatures: vec![] }),
        signed_effects: Some(SignedTransactionEffects {
            effects: TransactionEffects { transaction_digest: T1, digest: D1 },
            auth_sig: AuthoritySignInfo { epoch: 4, authority: a },
        }),
    };
    let two = vec![arrival(1, 1, Ok(old_cert(1))), arrival(2, 1, Ok(old_cert(2)))];
    assert!(agg.process_transaction(tx(), two).is_err());
    let three = vec![
        arrival(1, 1, Ok(old_cert(1))),
        arrival(2, 1, Ok(old_cert(2))),
        arrival(3, 1, Ok(old_cert(3))),
    ];
    assert_eq!(agg.process_transaction(tx(), three).unwrap().epoch, 4);
}

#[test]
fn lock_conflicts_are_recorded_by_other_transaction() {
    let agg = aggregator();
    let o = (100, 2, 0xab);
    let conflict = || SuiError::ObjectLockConflict { obj_ref: o, pending_transaction: T2 };
    let arrivals = vec![
        arrival(1, 5, Err(conflict())),
        arrival(4, 5, Ok(signed_response(4, 5))),
        arrival(2, 5, Err(conflict())),
        arrival(3, 5, Err(conflict())),
    ];
    match agg.process_transaction(tx(), arrivals) {
        Err(SuiError::QuorumFailedToProcessTransaction { good_stake, errors, conflicting_tx_digests }) => {
            assert_eq!(good_stake, 1);
            assert_eq!(errors.len(), 3);
            assert_eq!(conflicting_tx_digests.len(), 1);
            let c = &conflicting_tx_digests[&T2];
            assert_eq!(c.total_stake, 3);
            assert_eq!(c.lock_records, vec![(1, o), (2, o), (3, o)]);
        }
        other => panic!("unexpected {:?}", other),
    }
}

#[test]
fn errors_beyond_validity_stop_early() {
    let agg = aggregator();
    let fail = || SuiError::GenericAuthorityError { error: "down".to_string() };
    let arrivals = vec![
        arrival(1, 5, Err(fail())),
        arrival(2, 5, Err(fail())),
        arrival(3, 5, Err(fail())),
        arrival(4, 5, Ok(signed_response(4, 5))),
    ];
    match agg.process_transaction(tx(), arrivals) {
        Err(SuiError::QuorumFailedToProcessTransaction { good_stake, errors, .. }) => {
            assert_eq!(good_stake, 0);
            assert_eq!(errors.len(), 3);
        }
        other => panic!("unexpected {:?}", other),
    }
}

#[test]
fn late_responses_are_not_waited_for() {
    let agg = aggregator();
    let arrivals = vec![
        arrival(1, 10, Ok(signed_response(1, 5))),
        arrival(2, 10, Ok(signed_response(2, 5))),
        arrival(3, 60_001, Ok(signed_response(3, 5))),
    ];
    match agg.process_transaction(tx(), arrivals) {
        Err(SuiError::QuorumFailedToProcessTransaction { good_stake, .. }) => assert_eq!(good_stake, 2),
        other => panic!("unexpected {:?}", other),
    }
}

#[test]
fn split_effects_fail_without_quorum() {
    let agg = aggregator();
    let arrivals = vec![
        arrival(1, 10, Ok(effects_response(1, D1))),
        arrival(2, 10, Ok(effects_response(2, D2))),
        arrival(3, 10, Ok(effects_response(3, D1))),
        arrival(4, 10, Ok(effects_response(4, D2))),
    ];
    match agg.process_certificate(&certificate(), arrivals) {
        Err(SuiError::QuorumFailedToExecuteCertificate { errors }) => assert!(errors.is_empty()),
        other => panic!("unexpected {:?}", other),
    }
}

#[test]
fn matching_effects_are_certified() {
    let agg = aggregator();
    let arrivals = vec![
        arrival(1, 10, Ok(effects_response(1, D1))),
        arrival(2, 10, Err(SuiError::TimeoutError)),
        arrival(3, 10, Ok(effects_response(3, D1))),
        arrival(4, 10, Ok(effects_response(4, D1))),
    ];
    let c = agg.process_certificate(&certificate(), arrivals).unwrap();
    assert_eq!(c.effects.digest, D1);
    let signers: Vec<u64> = c.signatures.iter().map(|s| s.authority).collect();
    assert_eq!(signers, vec![1, 3, 4]);
}

#[test]
fn effects_errors_beyond_validity_fail() {
    let agg = aggregator();
    let arrivals = vec![
        arrival(1, 10, Err(SuiError::TimeoutError)),
        arrival(2, 10, Err(SuiError::TimeoutError)),
        arrival(3, 10, Err(SuiError::TimeoutError)),
        arrival(4, 10, Ok(effects_response(4, D1))),
    ];
    match agg.process_certificate(&certificate(), arrivals) {
        Err(SuiError::QuorumFailedToExecuteCertificate { errors }) => assert_eq!(errors.len(), 3),
        other => panic!("unexpected {:?}", other),
    }
}

#[test]
fn end_ignores_later_responses() {
    let c = Committee::new(5, vec![(1, 1), (2, 1), (3, 1), (4, 1)]).unwrap();
    let reducer = ProcessCertificateReducer { quorum_threshold: 3, validity_threshold: 2 };
    let base = vec![
        arrival(1, 1, Ok(effects_response(1, D1))),
        arrival(2, 1, Ok(effects_response(2, D1))),
        arrival(3, 1, Ok(effects_response(3, D1))),
    ];
    let mut longer = vec![
        arrival(1, 1, Ok(effects_response(1, D1))),
        arrival(2, 1, Ok(effects_response(2, D1))),
        arrival(3, 1, Ok(effects_response(3, D1))),
    ];
    longer.push(arrival(4, 1, Ok(effects_response(4, D2))));
    let a = quorum_map_then_reduce_with_timeout(&c, &reducer, ProcessCertificateState::new(), base, 100).unwrap();
    let b = quorum_map_then_reduce_with_timeout(&c, &reducer, ProcessCertificateState::new(), longer, 100).unwrap();
    assert_eq!(a.effects_map.len(), 1);
    assert_eq!(b.effects_map.len(), 1);
    assert_eq!(a.effects_map.get_cert().unwrap().signatures, b.effects_map.get_cert().unwrap().signatures);
}

#[test]
fn reducer_continues_below_quorum() {
    let reducer = ProcessTransactionReducer { epoch: 5, quorum_threshold: 3, validity_threshold: 2, transaction: tx() };
    match reducer.reduce(ProcessTransactionState::new(), 1, 1, Ok(signed_response(1, 5))) {
        Ok(ReduceOutput::Continue(s)) => {
            assert_eq!(s.good_stake, 1);
            assert!(s.certificate.is_none());
        }
        _ => panic!("expected Continue"),
    }
}

#[test]
fn default_timeouts() {
    let t = TimeoutConfig::default();
    assert_eq!(t.pre_quorum_timeout, 60_000);
    assert_eq!(t.post_quorum_timeout, 30_000);
    assert_eq!(t.authority_request_timeout, 60_000);
    assert_eq!(t.serial_authority_request_timeout, 5_000);
    assert_eq!(t.serial_authority_request_interval, 1_000);
}

#[test]
fn true_effects_need_validity_stake() {
    let agg = aggregator();
    let arrivals = vec![
        arrival(1, 10, Ok(effects_response(1, D1))),
        arrival(2, 10, Ok(effects_response(2, D2))),
        arrival(3, 10, Ok(effects_response(3, D2))),
        arrival(4, 10, Ok(effects_response(4, D1))),
    ];
    let e = agg.execute_cert_to_true_effects(&certificate(), arrivals).unwrap();
    assert_eq!(e.effects.digest, D2);
    assert_eq!(e.auth_sig.authority, 3);
}

#[test]
fn true_effects_give_up_when_unreachable() {
    let agg = aggregator();
    let arrivals = vec![
        arrival(1, 10, Err(SuiError::TimeoutError)),
        arrival(2, 10, Err(SuiError::TimeoutError)),
        arrival(3, 10, Err(SuiError::TimeoutError)),
        arrival(4, 10, Ok(effects_response(4, D1))),
    ];
    match agg.execute_cert_to_true_effects(&certificate(), arrivals) {
        Err(SuiError::TooManyIncorrectAuthorities { errors, action }) => {
            assert_eq!(errors.len(), 3);
            assert_eq!(errors[2].0, 3);
            assert_eq!(action, "execute_cert_to_true_effects");
        }
        other => panic!("unexpected {:?}", other),
    }
}

#[test]
fn transaction_info_prefers_the_certificate() {
    let both = TransactionInfoResponse {
        signed_transaction: Some(SignedTransaction { transaction: tx(), auth_sig: AuthoritySignInfo { epoch: 5, authority: 2 } }),
        certified_transaction: Some(certificate()),
        signed_effects: None,
    };
    assert!(matches!(classify_transaction_info(2, both), Ok((None, Some(_)))));
    assert!(matches!(classify_transaction_info(2, signed_response(2, 5)), Ok((Some(_), None))));
    let none = TransactionInfoResponse { signed_transaction: None, certified_transaction: None, signed_effects: None };
    assert!(matches!(classify_transaction_info(6, none), Err(SuiError::ByzantineAuthoritySuspicion { authority: 6 })));
}

#[test]
fn transaction_and_effects_need_both() {
    let partial = || TransactionAndEffectsInfoResponse { certified_transaction: Some(certificate()), signed_effects: None };
    assert!(matches!(
        classify_transaction_and_effects(2, T1, true, partial()),
        Err(SuiError::ByzantineAuthoritySuspicion { authority: 2 })
    ));
    assert!(matches!(
        classify_transaction_and_effects(2, T1, false, partial()),
        Err(SuiError::TransactionNotFound { digest: T1 })
    ));
    let full = TransactionAndEffectsInfoResponse {
        certified_transaction: Some(certificate()),
        signed_effects: Some(effects_response(2, D1).signed_effects),
    };
    let (c, e) = classify_transaction_and_effects(2, T1, true, full).unwrap();
    assert_eq!(c.transaction, tx());
    assert_eq!(e.effects.digest, D1);
}

#[test]
fn fold_step_keeps_or_replaces_the_timeout() {
    let c = Committee::new(5, vec![(1, 1), (2, 1), (3, 1), (4, 1)]).unwrap();
    let reducer = ProcessCertificateReducer { quorum_threshold: 3, validity_threshold: 2 };
    let s = match reduce_step(&c, &reducer, ProcessCertificateState::new(), 77, 1, Ok(effects_response(1, D1))) {
        Ok(FoldStep::Wait(s, t)) => {
            assert_eq!(t, 77);
            s
        }
        _ => panic!("expected to wait"),
    };
    let s = match reduce_step(&c, &reducer, s, 77, 2, Ok(effects_response(2, D1))) {
        Ok(FoldStep::Wait(s, _)) => s,
        _ => panic!("expected to wait"),
    };
    assert!(matches!(reduce_step(&c, &reducer, s, 77, 3, Ok(effects_response(3, D1))), Ok(FoldStep::Done(_))));
}

#[test]
fn reducers_use_the_committee_thresholds() {
    let agg = aggregator();
    let r = agg.transaction_reducer(tx());
    assert_eq!((r.epoch, r.quorum_threshold, r.validity_threshold), (5, 3, 2));
    let c = agg.certificate_reducer();
    assert_eq!((c.quorum_threshold, c.validity_threshold), (3, 2));
    let e = agg.true_effects_reducer();
    assert_eq!((e.validity_threshold, e.total_weight), (2, 4));
    let k = agg.committee_reducer();
    assert_eq!((k.quorum_threshold, k.validity_threshold), (3, 2));
}
