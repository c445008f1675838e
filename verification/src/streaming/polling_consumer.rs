//! On whose behalf a partition is read.

use crate::consumer::Consumer;
use crate::consumer::ConsumerKind;
use vstd::prelude::*;

verus! {

/// The reader of a partition, as the broker sees it.
#[derive(Debug, Clone, Copy, PartialEq, Eq, Structural)]
pub enum PollingConsumer {
    /// A single consumer that names the partition itself; without a
    /// partition id it reads partition 1.
    Consumer { consumer_id: u32, partition_id: u32 },
    /// The member `member_id` of a consumer group.  Where it names no
    /// partition, the group's assignment decides which one it reads; where it
    /// names one, that partition must be assigned to it.
    ConsumerGroup { group_id: u32, member_id: u32, partition_id: Option<u32> },
}

impl PollingConsumer {
    /// The reader that a command's consumer stands for, given the client
    /// that sent the command and the partition id of the command.
    pub open spec fn spec_from_consumer(
        consumer: Consumer,
        client_id: u32,
        partition_id: Option<u32>,
    ) -> PollingConsumer {
        match consumer.kind {
            ConsumerKind::Consumer => PollingConsumer::Consumer {
                consumer_id: consumer.id,
                partition_id: match partition_id {
                    Some(id) => id,
                    None => 1,
                },
            },
            ConsumerKind::ConsumerGroup => PollingConsumer::ConsumerGroup {
                group_id: consumer.id,
                member_id: client_id,
                partition_id,
            },
        }
    }

    /// Returns the reader that a command's consumer stands for.
    pub fn from_consumer(consumer: Consumer, client_id: u32, partition_id: Option<u32>) -> (r:
        PollingConsumer)
        ensures
            r == Self::spec_from_consumer(consumer, client_id, partition_id),
    {
        match consumer.kind {
            ConsumerKind::Consumer => PollingConsumer::Consumer {
                consumer_id: consumer.id,
                partition_id: match partition_id {
                    Some(id) => id,
                    None => 1,
                },
            },
            ConsumerKind::ConsumerGroup => PollingConsumer::ConsumerGroup {
                group_id: consumer.id,
                member_id: client_id,
                partition_id,
            },
        }
    }

    /// The key under which the offsets of this reader are stored: a single
    /// consumer under its own id, a member of a group under the id of the
    /// group, so that the members share their progress.
    pub open spec fn spec_key(self) -> Consumer {
        match self {
            PollingConsumer::Consumer { consumer_id, .. } => Consumer {
                kind: ConsumerKind::Consumer,
                id: consumer_id,
            },
            PollingConsumer::ConsumerGroup { group_id, .. } => Consumer {
                kind: ConsumerKind::ConsumerGroup,
                id: group_id,
            },
        }
    }

    /// Returns the key under which the offsets of this reader are stored.
    pub fn key(&self) -> (r: Consumer)
        ensures
            r == self.spec_key(),
    {
        match self {
            PollingConsumer::Consumer { consumer_id, .. } => Consumer {
                kind: ConsumerKind::Consumer,
                id: *consumer_id,
            },
            PollingConsumer::ConsumerGroup { group_id, .. } => Consumer {
                kind: ConsumerKind::ConsumerGroup,
                id: *group_id,
            },
        }
    }
}

} // verus!
