use quorum_core::committee::{Committee, StakeUnit};

fn equal_committee() -> Committee {
    Committee::new(1, vec![(1, 1), (2, 1), (3, 1), (4, 1)]).unwrap()
}

#[test]
fn thresholds_of_four_equal_authorities() {
    let c = equal_committee();
    assert_eq!(c.total_stake(), 4);
    assert_eq!(c.quorum_threshold(), 3);
    assert_eq!(c.validity_threshold(), 2);
}

#[test]
fn thresholds_cover_the_total() {
    for total in [0u64, 1, 2, 3, 4, 5, 6, 7, 10, 100, 101, 102, u64::MAX / 2] {
        let c = Committee::new(0, vec![(9, total)]).unwrap();
        let q = c.quorum_threshold();
        let v = c.validity_threshold();
        assert!((q as u128) + (v as u128) > total as u128);
        assert!(q == 2 * v - 1 || q == 2 * v);
        assert!(2 * (q as u128) - total as u128 >= v as u128);
    }
}

#[test]
fn largest_total_has_exact_thresholds() {
    let c = Committee::new(0, vec![(1, u64::MAX)]).unwrap();
    assert_eq!(c.quorum_threshold(), (2 * (u64::MAX as u128) / 3 + 1) as u64);
    assert_eq!(c.validity_threshold(), u64::MAX / 3 + 1);
}

#[test]
fn weight_of_unknown_authority_is_zero() {
    let c = Committee::new(3, vec![(10, 5), (20, 7)]).unwrap();
    assert_eq!(c.weight(10), 5);
    assert_eq!(c.weight(20), 7);
    assert_eq!(c.weight(30), 0);
    assert!(c.is_member(20));
    assert!(!c.is_member(30));
}

#[test]
fn committee_rejects_duplicates_and_overflow() {
    assert!(Committee::new(0, vec![(1, 1), (1, 2)]).is_none());
    assert!(Committee::new(0, vec![(1, u64::MAX), (2, 1)]).is_none());
    let big: StakeUnit = u64::MAX - 1;
    assert!(Committee::new(0, vec![(1, big), (2, 1)]).is_some());
    assert!(Committee::new(0, vec![]).is_some());
}

#[test]
fn shuffle_puts_preferences_first_and_filters() {
    let c = equal_committee();
    let drawn = vec![3, 1, 9, 4, 2];
    assert_eq!(c.shuffle_by_stake(None, None, &drawn), vec![3, 1, 4, 2]);
    let prefs = vec![4, 2];
    assert_eq!(c.shuffle_by_stake(Some(&prefs), None, &drawn), vec![4, 2, 3, 1]);
    let only = vec![1, 2, 9];
    assert_eq!(c.shuffle_by_stake(Some(&prefs), Some(&only), &drawn), vec![2, 1]);
    let empty: Vec<u64> = vec![];
    assert_eq!(c.shuffle_by_stake(None, Some(&empty), &drawn), empty);
}
