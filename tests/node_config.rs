use quorum_core::authority_store::{LockDetails, ObjectLockStatus, UpdateType};
use quorum_core::checkpoints::{CheckpointServiceNoop, CheckpointWatermark, Node};
use quorum_core::node_config::{
    bool_true, default_admin_interface_port, default_authority_store_pruning_config,
    default_checkpoints_per_epoch, default_concurrency_limit, AuthorityStorePruningConfig,
    DEFAULT_GRPC_CONCURRENCY_LIMIT,
};

#[test]
fn pruning_configs() {
    let v = AuthorityStorePruningConfig::validator_config();
    assert_eq!(v.objects_num_latest_versions_to_retain, 2);
    assert_eq!(v.objects_pruning_period_secs, 43_200);
    assert_eq!(v.objects_pruning_initial_delay_secs, 3_600);
    let f = AuthorityStorePruningConfig::fullnode_config();
    assert_eq!(f.objects_num_latest_versions_to_retain, 5);
    assert_eq!(f.objects_pruning_period_secs, 86_400);
    assert_eq!(f.objects_pruning_initial_delay_secs, 3_600);
    let d = default_authority_store_pruning_config();
    assert_eq!(d, AuthorityStorePruningConfig::default());
    assert_eq!(d.objects_num_latest_versions_to_retain, u64::MAX);
}

#[test]
fn node_defaults() {
    assert_eq!(default_admin_interface_port(), 1337);
    assert_eq!(default_concurrency_limit(), Some(20_000_000_000));
    assert_eq!(DEFAULT_GRPC_CONCURRENCY_LIMIT, 20_000_000_000);
    assert_eq!(default_checkpoints_per_epoch(), Some(500));
    assert!(bool_true());
    assert_eq!(Node::CHANNEL_CAPACITY, 1_000);
}

#[test]
fn store_and_checkpoint_values() {
    let lock = LockDetails { epoch: 3, tx_digest: 9 };
    assert_eq!(ObjectLockStatus::LockedToTx { locked_by_tx: lock }, ObjectLockStatus::LockedToTx { locked_by_tx: lock });
    assert_ne!(ObjectLockStatus::Initialized, ObjectLockStatus::LockedAtDifferentVersion { locked_ref: (1, 2, 3) });
    assert_ne!(UpdateType::Genesis, UpdateType::Transaction(4));
    assert_ne!(CheckpointWatermark::HighestSynced, CheckpointWatermark::HighestExecuted);
    let noop = CheckpointServiceNoop {};
    assert!(noop.notify_checkpoint_signature().is_ok());
    assert!(noop.notify_checkpoint().is_ok());
}
