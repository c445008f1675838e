//! Client-side calculation of the partition that messages go to.

use crate::error::IggyError;
use crate::identifier::Identifier;
use crate::messages::AppendableMessage;
use crate::partitioning::Partitioning;
use vstd::prelude::*;

verus! {

/// The trait represent the logic responsible for calculating the partition
/// ID and is used by the client.  This might be especially useful when the
/// partition ID is not constant and might be calculated based on the stream
/// ID, topic ID and other parameters.
///
/// Nothing is promised of an implementation: the broker does not depend on
/// what it returns.
pub trait Partitioner: Send + Sync + core::fmt::Debug {
    /// Calculates the id of the partition that the messages go to.
    fn calculate_partition_id(
        &self,
        stream_id: &Identifier,
        topic_id: &Identifier,
        partitioning: &Partitioning,
        messages: &[AppendableMessage],
    ) -> Result<u32, IggyError>;
}

} // verus!
