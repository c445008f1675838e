//! What the shard asks of the storage layer.
//!
//! The shard changes its index first and then notes what the storage layer
//! has to do.  Whoever drives the shard carries the requests out in their
//! order; where the storage layer fails on one, the change to the index that
//! belongs to it is rolled back with [`IggyShard::compensate`].

use crate::consumer::Consumer;
use crate::error::IggyError;
use crate::identifier::IdentifierView;
use crate::messages::AppendableMessage;
use crate::partitioning::PartitioningView;
use crate::shard::lemma_topic_change_keeps_wf;
use crate::shard::messages::appended_messages;
use crate::shard::streams::created_stream;
use crate::shard::tables_kept;
use crate::shard::topic_kept;
use crate::streaming::registry::lemma_located;
use crate::streaming::registry::lemma_locate_in_range;
use crate::streaming::session::Session;
use crate::streaming::topic::partition_changed;
use crate::shard::IggyShard;
use crate::streaming::partition::offset_of;
use crate::streaming::registry::find_by_id;
use crate::streaming::registry::has_id;
use crate::streaming::registry::index_of_id;
use crate::streaming::registry::lemma_removed_distinct;
use vstd::prelude::*;

verus! {

/// One request to the storage layer.
#[derive(Debug, Clone, Copy, PartialEq, Eq, Structural)]
pub enum StorageRequest {
    /// Create the directory of a new stream.
    CreateStreamDir { stream_id: u32 },
    /// Reclaim the space of a deleted stream.
    DeleteStreamDir { stream_id: u32 },
    /// Append the `count` messages that the index holds from `first_offset`
    /// on in the partition.
    Append { stream_id: u32, topic_id: u32, partition_id: u32, first_offset: u64, count: u64 },
    /// Store the offset of a consumer on a partition, in place of the one
    /// stored before, if there was one.
    StoreOffset {
        stream_id: u32,
        topic_id: u32,
        partition_id: u32,
        consumer: Consumer,
        offset: u64,
        previous: Option<u64>,
    },
}

/// The request has been noted after the requests that were pending.
pub open spec fn emitted(before: IggyShard, after: IggyShard, request: StorageRequest) -> bool {
    after.outbox@ == before.outbox@.push(request)
}

/// What [`IggyShard::compensate`] does.
///
/// For a stream whose directory could not be created, the stream is taken
/// out of the index.  For a batch that could not be appended, its messages
/// are taken out of the partition, where they are still its last ones.  For
/// an offset that could not be stored, what was stored before is put back.
/// Nothing is rolled back for a stream whose space could not be reclaimed:
/// the index does not show it any more.  Where the stream, topic or partition
/// that a request speaks of is gone, nothing changes.
pub open spec fn compensated(before: IggyShard, after: IggyShard, request: StorageRequest) -> bool {
    &&& tables_kept(before, after)
    &&& after.outbox == before.outbox
    &&& match request {
        StorageRequest::CreateStreamDir { stream_id } => if has_id(before.streams@, stream_id) {
            after.streams@ == before.streams@.remove(index_of_id(before.streams@, stream_id))
        } else {
            after.streams == before.streams
        },
        StorageRequest::DeleteStreamDir { .. } => after.streams == before.streams,
        StorageRequest::Append { stream_id, topic_id, partition_id, first_offset, count } => match before.partition_at(
            stream_id,
            topic_id,
            partition_id,
        ) {
            Some((si, ti, pi)) => {
                let topic = before.streams@[si].topics@[ti];
                let changed = after.streams@[si].topics@[ti];
                &&& topic_kept(before, after, si, ti)
                &&& partition_changed(topic, changed, pi)
                &&& changed.next_partition == topic.next_partition
                &&& changed.partitions@[pi].id == topic.partitions@[pi].id
                &&& changed.partitions@[pi].offsets == topic.partitions@[pi].offsets
                &&& changed.partitions@[pi].messages@ == if topic.partitions@[pi].messages@.len()
                    == first_offset + count {
                    topic.partitions@[pi].messages@.take(first_offset as int)
                } else {
                    topic.partitions@[pi].messages@
                }
            },
            None => after.streams == before.streams,
        },
        StorageRequest::StoreOffset {
            stream_id,
            topic_id,
            partition_id,
            consumer,
            offset,
            previous,
        } => match before.partition_at(stream_id, topic_id, partition_id) {
            Some((si, ti, pi)) => {
                let topic = before.streams@[si].topics@[ti];
                let changed = after.streams@[si].topics@[ti];
                &&& topic_kept(before, after, si, ti)
                &&& partition_changed(topic, changed, pi)
                &&& changed.next_partition == topic.next_partition
                &&& changed.partitions@[pi].id == topic.partitions@[pi].id
                &&& changed.partitions@[pi].messages == topic.partitions@[pi].messages
                &&& offset_of(changed.partitions@[pi].offsets@, consumer) == previous
                &&& forall|other: Consumer|
                    other != consumer ==> offset_of(changed.partitions@[pi].offsets@, other)
                        == offset_of(topic.partitions@[pi].offsets@, other)
            },
            None => after.streams == before.streams,
        },
    }
}

/// Rolling back the creation of a stream leaves the streams as they were
/// before it.
pub proof fn lemma_create_stream_rolled_back(
    before: IggyShard,
    between: IggyShard,
    after: IggyShard,
    session: Session,
    stream_id: Option<u32>,
    name: Seq<u8>,
    id: u32,
)
    requires
        before.wf(),
        between.wf(),
        created_stream(before, between, session, stream_id, name, Ok::<u32, IggyError>(id)),
        compensated(between, after, StorageRequest::CreateStreamDir { stream_id: id }),
    ensures
        after.streams@ == before.streams@,
{
    let last = between.streams@.len() - 1;
    lemma_located(between.streams@, last);
    assert(between.streams@.remove(last) =~= between.streams@.drop_last());
}

/// Rolling back the appending of a batch leaves the messages of the
/// partition as they were before it.
pub proof fn lemma_append_rolled_back(
    before: IggyShard,
    between: IggyShard,
    after: IggyShard,
    session: Session,
    stream_id: IdentifierView,
    topic_id: IdentifierView,
    partitioning: PartitioningView,
    batch: Seq<AppendableMessage>,
    now: u64,
    partition_id: u32,
    first_offset: u64,
)
    requires
        before.wf(),
        between.wf(),
        appended_messages(
            before,
            between,
            session,
            stream_id,
            topic_id,
            partitioning,
            batch,
            now,
            Ok::<(u32, u64), IggyError>((partition_id, first_offset)),
        ),
        compensated(
            between,
            after,
            StorageRequest::Append {
                stream_id: before.streams@[before.topic_at(stream_id, topic_id)->Some_0.0].id,
                topic_id: before.streams@[before.topic_at(
                    stream_id,
                    topic_id,
                )->Some_0.0].topics@[before.topic_at(stream_id, topic_id)->Some_0.1].id,
                partition_id,
                first_offset,
                count: batch.len() as u64,
            },
        ),
    ensures
        ({
            let (si, ti) = before.topic_at(stream_id, topic_id)->Some_0;
            let pi = partition_id - 1;
            after.streams@[si].topics@[ti].partitions@[pi].messages@
                == before.streams@[si].topics@[ti].partitions@[pi].messages@
        }),
{
    lemma_locate_in_range(before.streams@, stream_id);
    let (si, ti) = before.topic_at(stream_id, topic_id)->Some_0;
    lemma_locate_in_range(before.streams@[si].topics@, topic_id);
    let pi = partition_id - 1;
    lemma_located(between.streams@, si);
    assert(between.streams@[si].wf());
    lemma_located(between.streams@[si].topics@, ti);
    let old_messages = before.streams@[si].topics@[ti].partitions@[pi].messages@;
    let mid_messages = between.streams@[si].topics@[ti].partitions@[pi].messages@;
    assert(mid_messages.take(first_offset as int) =~= old_messages);
}

impl IggyShard {
    /// The indexes of the stream, the topic and the partition with the given
    /// numeric ids, if they exist.
    pub open spec fn partition_at(self, stream_id: u32, topic_id: u32, partition_id: u32) -> Option<
        (int, int, int),
    > {
        if !has_id(self.streams@, stream_id) {
            None
        } else {
            let si = index_of_id(self.streams@, stream_id);
            if !has_id(self.streams@[si].topics@, topic_id) {
                None
            } else {
                let ti = index_of_id(self.streams@[si].topics@, topic_id);
                if 1 <= partition_id <= self.streams@[si].topics@[ti].partitions@.len() {
                    Some((si, ti, partition_id - 1))
                } else {
                    None
                }
            }
        }
    }

    /// Finds the stream, the topic and the partition with the given numeric
    /// ids.
    pub fn find_partition(&self, stream_id: u32, topic_id: u32, partition_id: u32) -> (r: Option<
        (usize, usize, usize),
    >)
        requires
            self.wf(),
        ensures
            match r {
                Some((si, ti, pi)) => self.partition_at(stream_id, topic_id, partition_id) == Some(
                    (si as int, ti as int, pi as int),
                ) && si < self.streams@.len() && ti < self.streams@[si as int].topics@.len() && pi
                    < self.streams@[si as int].topics@[ti as int].partitions@.len(),
                None => self.partition_at(stream_id, topic_id, partition_id) is None,
            },
    {
        let si = find_by_id(&self.streams, stream_id)?;
        let ti = find_by_id(&self.streams[si].topics, topic_id)?;
        let count = self.streams[si].topics[ti].partitions.len();
        if 1 <= partition_id && partition_id as usize <= count {
            Some((si, ti, partition_id as usize - 1))
        } else {
            None
        }
    }

    /// Rolls back the change to the index that belongs to a request on which
    /// the storage layer failed.
    pub fn compensate(&mut self, request: &StorageRequest)
        requires
            old(self).wf(),
        ensures
            final(self).wf(),
            compensated(*old(self), *final(self), *request),
    {
        match *request {
            StorageRequest::CreateStreamDir { stream_id } => {
                match find_by_id(&self.streams, stream_id) {
                    Some(si) => {
                        let ghost before = self.streams@;
                        self.streams.remove(si);
                        proof {
                            lemma_removed_distinct(before, si as int);
                            let after = self.streams@;
                            assert forall|i: int| 0 <= i < after.len() implies (
                            #[trigger] after[i]).wf() by {
                                let x = if i < si { i } else { i + 1 };
                                assert(after[i] == before[x]);
                            }
                        }
                    },
                    None => {},
                }
            },
            StorageRequest::DeleteStreamDir { stream_id: _ } => {},
            StorageRequest::Append { stream_id, topic_id, partition_id, first_offset, count } => {
                match self.find_partition(stream_id, topic_id, partition_id) {
                    Some((si, ti, pi)) => {
                        self.streams[si].topics[ti].rollback_append(pi, first_offset, count);
                        proof {
                            lemma_topic_change_keeps_wf(*old(self), *self, si as int, ti as int);
                        }
                    },
                    None => {},
                }
            },
            StorageRequest::StoreOffset {
                stream_id,
                topic_id,
                partition_id,
                consumer,
                offset: _,
                previous,
            } => {
                match self.find_partition(stream_id, topic_id, partition_id) {
                    Some((si, ti, pi)) => {
                        self.streams[si].topics[ti].restore_offset(pi, consumer, previous);
                        proof {
                            lemma_topic_change_keeps_wf(*old(self), *self, si as int, ti as int);
                        }
                    },
                    None => {},
                }
            },
        }
    }

    /// Hands out the pending requests, oldest first, and forgets them.
    pub fn take_storage_requests(&mut self) -> (r: Vec<StorageRequest>)
        requires
            old(self).wf(),
        ensures
            final(self).wf(),
            r@ == old(self).outbox@,
            final(self).outbox@.len() == 0,
            tables_kept(*old(self), *final(self)),
            final(self).streams == old(self).streams,
    {
        let mut taken: Vec<StorageRequest> = Vec::new();
        core::mem::swap(&mut self.outbox, &mut taken);
        taken
    }
}

} // verus!
