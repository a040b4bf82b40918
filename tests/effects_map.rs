use quorum_core::effects_map::EffectsStakeMap;
use quorum_core::messages::{AuthoritySignInfo, SignedTransactionEffects, TransactionEffects};

fn signed(epoch: u64, authority: u64, digest: u64) -> SignedTransactionEffects {
    SignedTransactionEffects {
        effects: TransactionEffects { transaction_digest: 7, digest },
        auth_sig: AuthoritySignInfo { epoch, authority },
    }
}

#[test]
fn same_digest_reaches_quorum_once() {
    let mut m = EffectsStakeMap::new();
    assert!(!m.add(signed(1, 1, 50), 1, 3));
    assert!(!m.add(signed(1, 2, 50), 1, 3));
    assert!(m.get_cert().is_none());
    assert!(m.add(signed(1, 3, 50), 1, 3));
    assert_eq!(m.len(), 1);
    let cert = m.get_cert().unwrap();
    assert_eq!(cert.effects.digest, 50);
    assert_eq!(cert.epoch, 1);
    let signers: Vec<u64> = cert.signatures.iter().map(|s| s.authority).collect();
    assert_eq!(signers, vec![1, 2, 3]);
}

#[test]
fn distinct_digests_keep_their_own_stake() {
    let mut m = EffectsStakeMap::new();
    assert!(!m.add(signed(1, 1, 50), 2, 3));
    assert!(!m.add(signed(1, 2, 60), 2, 3));
    assert_eq!(m.len(), 2);
    assert!(m.get_cert().is_none());
    assert!(m.add(signed(1, 3, 60), 1, 3));
    assert_eq!(m.get_cert().unwrap().effects.digest, 60);
}

#[test]
fn same_digest_other_epoch_is_another_key() {
    let mut m = EffectsStakeMap::new();
    assert!(!m.add(signed(1, 1, 50), 2, 3));
    assert!(!m.add(signed(2, 2, 50), 2, 3));
    assert_eq!(m.len(), 2);
    assert!(m.get_cert().is_none());
}

#[test]
fn stake_saturates() {
    let mut m = EffectsStakeMap::new();
    assert!(!m.add(signed(1, 1, 5), u64::MAX - 1, u64::MAX));
    assert!(m.add(signed(1, 2, 5), 10, u64::MAX));
}

#[test]
fn first_certificate_is_kept() {
    let mut m = EffectsStakeMap::new();
    assert!(m.add(signed(1, 1, 50), 2, 2));
    assert_eq!(m.get_cert().unwrap().effects.digest, 50);
    assert!(!m.add(signed(1, 2, 60), 2, 2));
    assert!(m.add(signed(1, 3, 50), 1, 2));
    let cert = m.get_cert().unwrap();
    assert_eq!(cert.effects.digest, 50);
    assert_eq!(cert.signatures.len(), 1);
    assert_eq!(m.len(), 2);
}

#[test]
fn add_reports_only_its_own_certificate() {
    let mut m = EffectsStakeMap::new();
    assert!(m.add(signed(1, 1, 50), 3, 3));
    // Another key reaches the quorum too, but the certificate kept is for the first.
    assert!(!m.add(signed(1, 2, 60), 3, 3));
    assert_eq!(m.get_cert().unwrap().effects.digest, 50);
    assert!(m.add(signed(1, 3, 50), 1, 3));
}
