//! Client-side quorum protocol of a stake-weighted validator committee: certify a transaction
//! with a quorum of signatures, certify its effects with a quorum of matching effects, and
//! drive both with retries and conflict resolution. Every function here is verified; the
//! network fan-out and timers that feed it live outside.

pub mod aggregation;
pub mod authority_aggregator;
pub mod authority_store;
pub mod checkpoints;
pub mod committee;
pub mod committee_info;
pub mod effects_map;
pub mod messages;
pub mod node_config;
pub mod quorum_driver;
pub mod quorum_once;
