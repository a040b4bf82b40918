use vstd::prelude::*;

verus! {

/// Requests a node serves at once over gRPC by default.
pub const DEFAULT_GRPC_CONCURRENCY_LIMIT: u64 = 20000000000;

/// How many versions of each object a store keeps, and when it prunes the rest.
#[derive(Debug, Clone, Copy, PartialEq, Eq, Structural)]
pub struct AuthorityStorePruningConfig {
    pub objects_num_latest_versions_to_retain: u64,
    pub objects_pruning_period_secs: u64,
    pub objects_pruning_initial_delay_secs: u64,
}

impl Default for AuthorityStorePruningConfig {
    /// Never prune.
    fn default() -> (r: Self)
        ensures
            r.objects_num_latest_versions_to_retain == u64::MAX,
            r.objects_pruning_period_secs == u64::MAX,
            r.objects_pruning_initial_delay_secs == u64::MAX,
    {
        AuthorityStorePruningConfig {
            objects_num_latest_versions_to_retain: u64::MAX,
            objects_pruning_period_secs: u64::MAX,
            objects_pruning_initial_delay_secs: u64::MAX,
        }
    }
}

impl AuthorityStorePruningConfig {
    /// Keep 2 versions; prune every 12 hours, first after an hour.
    pub fn validator_config() -> (r: Self)
        ensures
            r.objects_num_latest_versions_to_retain == 2,
            r.objects_pruning_period_secs == 12 * 60 * 60,
            r.objects_pruning_initial_delay_secs == 60 * 60,
    {
        AuthorityStorePruningConfig {
            objects_num_latest_versions_to_retain: 2,
            objects_pruning_period_secs: 12 * 60 * 60,
            objects_pruning_initial_delay_secs: 60 * 60,
        }
    }

    /// Keep 5 versions; prune every 24 hours, first after an hour.
    pub fn fullnode_config() -> (r: Self)
        ensures
            r.objects_num_latest_versions_to_retain == 5,
            r.objects_pruning_period_secs == 24 * 60 * 60,
            r.objects_pruning_initial_delay_secs == 60 * 60,
    {
        AuthorityStorePruningConfig {
            objects_num_latest_versions_to_retain: 5,
            objects_pruning_period_secs: 24 * 60 * 60,
            objects_pruning_initial_delay_secs: 60 * 60,
        }
    }
}

/// The pruning configuration of a node that names none.
pub fn default_authority_store_pruning_config() -> (r: AuthorityStorePruningConfig)
    ensures
        r.objects_num_latest_versions_to_retain == u64::MAX,
        r.objects_pruning_period_secs == u64::MAX,
        r.objects_pruning_initial_delay_secs == u64::MAX,
{
    AuthorityStorePruningConfig::default()
}

pub fn default_admin_interface_port() -> (r: u16)
    ensures
        r == 1337,
{
    1337
}

pub fn default_concurrency_limit() -> (r: Option<u64>)
    ensures
        r == Some(DEFAULT_GRPC_CONCURRENCY_LIMIT),
{
    Some(DEFAULT_GRPC_CONCURRENCY_LIMIT)
}

pub fn default_checkpoints_per_epoch() -> (r: Option<u64>)
    ensures
        r == Some(500u64),
{
    Some(500)
}

pub fn bool_true() -> (r: bool)
    ensures
        r,
{
    true
}

} // verus!
