use vstd::prelude::*;

use crate::messages::SuiError;

verus! {

/// The checkpoint marks a node keeps.
#[derive(Debug, Clone, Copy, PartialEq, Eq, Structural)]
pub enum CheckpointWatermark {
    HighestVerified,
    HighestSynced,
    HighestExecuted,
}

/// A checkpoint service that ignores what it is told.
pub struct CheckpointServiceNoop {}

impl CheckpointServiceNoop {
    pub fn notify_checkpoint_signature(&self) -> (r: Result<(), SuiError>)
        ensures
            r is Ok,
    {
        Ok(())
    }

    pub fn notify_checkpoint(&self) -> (r: Result<(), SuiError>)
        ensures
            r is Ok,
    {
        Ok(())
    }
}

/// High-level entry point of a consensus node.
pub struct Node;

impl Node {
    /// The default channel capacity.
    pub const CHANNEL_CAPACITY: usize = 1_000;
}

} // verus!
