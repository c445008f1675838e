//! Appending and reading messages, and the offsets of consumers.

use crate::error::IggyError;
use crate::identifier::Identifier;
use crate::identifier::IdentifierView;
use crate::messages::AppendableMessage;
use crate::partitioning::Partitioning;
use crate::partitioning::PartitioningView;
use crate::permissions::Action;
use crate::polling::PollingStrategy;
use crate::shard::lemma_topic_change_keeps_wf;
use crate::shard::storage::emitted;
use crate::shard::storage::StorageRequest;
use crate::shard::tables_kept;
use crate::shard::topic_kept;
use crate::shard::unchanged;
use crate::shard::IggyShard;
use crate::streaming::partition::offset_of;
use crate::streaming::polling_consumer::PollingConsumer;
use crate::streaming::session::Session;
use crate::streaming::topic::appended_to_topic;
use crate::streaming::topic::last_offset;
use crate::streaming::topic::polled;
use crate::streaming::topic::stored_in_topic;
use crate::streaming::topic::ConsumerOffsetInfo;
use crate::streaming::topic::PolledMessages;
use vstd::prelude::*;

verus! {

/// How a poll is to be carried out.
#[derive(Debug, Clone, Copy, PartialEq, Eq, Structural)]
pub struct PollingArgs {
    /// Where in the partition to start.
    pub strategy: PollingStrategy,
    /// Largest number of messages to return.
    pub count: u32,
    /// Whether to store the offset after the last returned message.
    pub auto_commit: bool,
}

impl PollingArgs {
    /// Puts the three settings together.
    pub fn new(strategy: PollingStrategy, count: u32, auto_commit: bool) -> (r: PollingArgs)
        ensures
            r == (PollingArgs { strategy, count, auto_commit }),
    {
        PollingArgs { strategy, count, auto_commit }
    }
}

/// What [`IggyShard::append_messages`] does: once the session is admitted
/// with the right to send messages and the topic is found, a partitioning
/// that is not well-formed is refused as `InvalidCommand`; otherwise what
/// [`appended_to_topic`] says of the topic holds, and where the batch was
/// appended the storage layer is asked to append it too.  Nothing else
/// changes.
pub open spec fn appended_messages(
    before: IggyShard,
    after: IggyShard,
    session: Session,
    stream_id: IdentifierView,
    topic_id: IdentifierView,
    partitioning: PartitioningView,
    batch: Seq<AppendableMessage>,
    now: u64,
    r: Result<(u32, u64), IggyError>,
) -> bool {
    match before.admit_topic(session, Action::SendMessages, stream_id, topic_id) {
        Err(e) => r == Err::<(u32, u64), IggyError>(e) && unchanged(before, after),
        Ok((si, ti)) => if !partitioning.wf() {
            r == Err::<(u32, u64), IggyError>(IggyError::InvalidCommand) && unchanged(
                before,
                after,
            )
        } else {
            &&& tables_kept(before, after)
            &&& topic_kept(before, after, si, ti)
            &&& appended_to_topic(
                before.streams@[si].topics@[ti],
                after.streams@[si].topics@[ti],
                partitioning,
                batch,
                now,
                r,
            )
            &&& match r {
                Ok((partition_id, first_offset)) => emitted(
                    before,
                    after,
                    StorageRequest::Append {
                        stream_id: before.streams@[si].id,
                        topic_id: before.streams@[si].topics@[ti].id,
                        partition_id,
                        first_offset,
                        count: batch.len() as u64,
                    },
                ),
                Err(_) => after.outbox == before.outbox,
            }
        },
    }
}

/// What a poll asks of the storage layer: with `auto_commit`, and where a
/// message is returned, to store the offset just after the last returned
/// message for the reader; else nothing.
pub open spec fn committed(
    before: IggyShard,
    si: int,
    ti: int,
    consumer: PollingConsumer,
    args: PollingArgs,
) -> Option<StorageRequest> {
    let topic = before.streams@[si].topics@[ti];
    match topic.polling_partition(consumer) {
        Ok(i) => {
            let partition = topic.partitions@[i];
            let key = consumer.spec_key();
            let start = partition.start_offset(key, args.strategy, args.count);
            let n = partition.available(start, args.count);
            if args.auto_commit && n > 0 {
                Some(
                    StorageRequest::StoreOffset {
                        stream_id: before.streams@[si].id,
                        topic_id: topic.id,
                        partition_id: (i + 1) as u32,
                        consumer: key,
                        offset: (start + n) as u64,
                        previous: offset_of(partition.offsets@, key),
                    },
                )
            } else {
                None
            }
        },
        Err(_) => None,
    }
}

/// What [`IggyShard::poll_messages`] does: once the session is admitted
/// with the right to poll messages and the topic is found, what [`polled`]
/// says of the topic, and what [`committed`] says is asked of the storage
/// layer; nothing else changes.
pub open spec fn polled_messages(
    before: IggyShard,
    after: IggyShard,
    session: Session,
    consumer: PollingConsumer,
    stream_id: IdentifierView,
    topic_id: IdentifierView,
    args: PollingArgs,
    r: Result<PolledMessages, IggyError>,
) -> bool {
    match before.admit_topic(session, Action::PollMessages, stream_id, topic_id) {
        Err(e) => r is Err && r->Err_0 == e && unchanged(before, after),
        Ok((si, ti)) => {
            let topic = before.streams@[si].topics@[ti];
            &&& tables_kept(before, after)
            &&& topic_kept(before, after, si, ti)
            &&& polled(
                topic,
                after.streams@[si].topics@[ti],
                consumer,
                args.strategy,
                args.count,
                args.auto_commit,
                r,
            )
            &&& match committed(before, si, ti, consumer, args) {
                Some(request) => emitted(before, after, request),
                None => after.outbox == before.outbox,
            }
        },
    }
}

/// What [`IggyShard::store_consumer_offset`] does: once the session is
/// admitted with the right to poll messages and the topic is found, the
/// offset is stored for the reader on the partition it reads, and the
/// storage layer is asked to store it too; where the reader has no partition,
/// the result is the error of [`crate::streaming::topic::Topic::polling_partition`]
/// and nothing changes.
pub open spec fn stored_consumer_offset(
    before: IggyShard,
    after: IggyShard,
    session: Session,
    consumer: PollingConsumer,
    stream_id: IdentifierView,
    topic_id: IdentifierView,
    offset: u64,
    r: Result<(), IggyError>,
) -> bool {
    match before.admit_topic(session, Action::PollMessages, stream_id, topic_id) {
        Err(e) => r == Err::<(), IggyError>(e) && unchanged(before, after),
        Ok((si, ti)) => match before.streams@[si].topics@[ti].polling_partition(consumer) {
            Ok(i) => r is Ok && tables_kept(before, after) && topic_kept(before, after, si, ti)
                && stored_in_topic(
                before.streams@[si].topics@[ti],
                after.streams@[si].topics@[ti],
                i,
                consumer.spec_key(),
                offset,
            ) && emitted(
                before,
                after,
                StorageRequest::StoreOffset {
                    stream_id: before.streams@[si].id,
                    topic_id: before.streams@[si].topics@[ti].id,
                    partition_id: (i + 1) as u32,
                    consumer: consumer.spec_key(),
                    offset,
                    previous: offset_of(
                        before.streams@[si].topics@[ti].partitions@[i].offsets@,
                        consumer.spec_key(),
                    ),
                },
            ),
            Err(e) => r == Err::<(), IggyError>(e) && unchanged(before, after),
        },
    }
}

impl IggyShard {
    /// What is stored for a reader on the partition it reads: once the
    /// session is admitted with the right to poll messages and the topic is
    /// found, the id of the partition, the offset of its last message, and the
    /// offset stored for the reader, or 0.
    pub open spec fn consumer_offset(
        self,
        session: Session,
        consumer: PollingConsumer,
        stream_id: IdentifierView,
        topic_id: IdentifierView,
    ) -> Result<ConsumerOffsetInfo, IggyError> {
        match self.admit_topic(session, Action::PollMessages, stream_id, topic_id) {
            Err(e) => Err(e),
            Ok((si, ti)) => {
                let topic = self.streams@[si].topics@[ti];
                match topic.polling_partition(consumer) {
                    Ok(i) => Ok(
                        ConsumerOffsetInfo {
                            partition_id: (i + 1) as u32,
                            current_offset: last_offset(topic.partitions@[i]),
                            stored_offset: match offset_of(
                                topic.partitions@[i].offsets@,
                                consumer.spec_key(),
                            ) {
                                Some(offset) => offset,
                                None => 0,
                            },
                        },
                    ),
                    Err(e) => Err(e),
                }
            },
        }
    }

    /// Appends a batch of messages to a topic and returns the id of the
    /// partition that took it and the offset of its first message.
    pub fn append_messages(
        &mut self,
        session: &Session,
        stream_id: &Identifier,
        topic_id: &Identifier,
        partitioning: &Partitioning,
        messages: &Vec<AppendableMessage>,
        now: u64,
    ) -> (r: Result<(u32, u64), IggyError>)
        requires
            old(self).wf(),
        ensures
            final(self).wf(),
            appended_messages(
                *old(self),
                *final(self),
                *session,
                stream_id@,
                topic_id@,
                partitioning@,
                messages@,
                now,
                r,
            ),
    {
        let (si, ti) = self.enter_topic(session, Action::SendMessages, stream_id, topic_id)?;
        if partitioning.validate().is_err() {
            return Err(IggyError::InvalidCommand);
        }
        let stream_id = self.streams[si].id;
        let topic_id = self.streams[si].topics[ti].id;
        let r = self.streams[si].topics[ti].append_messages(partitioning, messages, now);
        proof {
            lemma_topic_change_keeps_wf(*old(self), *self, si as int, ti as int);
        }
        match r {
            Ok((partition_id, first_offset)) => {
                self.outbox.push(
                    StorageRequest::Append {
                        stream_id,
                        topic_id,
                        partition_id,
                        first_offset,
                        count: messages.len() as u64,
                    },
                );
            },
            Err(_) => {},
        }
        r
    }

    /// Reads messages from a topic on behalf of a reader.
    pub fn poll_messages(
        &mut self,
        session: &Session,
        consumer: PollingConsumer,
        stream_id: &Identifier,
        topic_id: &Identifier,
        args: PollingArgs,
    ) -> (r: Result<PolledMessages, IggyError>)
        requires
            old(self).wf(),
        ensures
            final(self).wf(),
            polled_messages(
                *old(self),
                *final(self),
                *session,
                consumer,
                stream_id@,
                topic_id@,
                args,
                r,
            ),
    {
        let (si, ti) = self.enter_topic(session, Action::PollMessages, stream_id, topic_id)?;
        let i = self.streams[si].topics[ti].resolve_partition(consumer)?;
        let key = consumer.key();
        let previous = self.streams[si].topics[ti].partitions[i].get_offset(key);
        let r = self.streams[si].topics[ti].poll_messages(
            consumer,
            args.strategy,
            args.count,
            args.auto_commit,
        );
        proof {
            lemma_topic_change_keeps_wf(*old(self), *self, si as int, ti as int);
        }
        match &r {
            Ok(polled) => {
                if args.auto_commit && polled.messages.len() > 0 {
                    match self.streams[si].topics[ti].partitions[i].get_offset(key) {
                        Some(offset) => {
                            self.outbox.push(
                                StorageRequest::StoreOffset {
                                    stream_id: self.streams[si].id,
                                    topic_id: self.streams[si].topics[ti].id,
                                    partition_id: (i + 1) as u32,
                                    consumer: key,
                                    offset,
                                    previous,
                                },
                            );
                        },
                        None => {},
                    }
                }
            },
            Err(_) => {},
        }
        r
    }

    /// What is stored for a reader on the partition it reads.
    pub fn get_consumer_offset(
        &self,
        session: &Session,
        consumer: PollingConsumer,
        stream_id: &Identifier,
        topic_id: &Identifier,
    ) -> (r: Result<ConsumerOffsetInfo, IggyError>)
        requires
            self.wf(),
        ensures
            r == self.consumer_offset(*session, consumer, stream_id@, topic_id@),
    {
        let (si, ti) = self.enter_topic(session, Action::PollMessages, stream_id, topic_id)?;
        self.streams[si].topics[ti].get_consumer_offset(consumer)
    }

    /// Stores an offset for a reader on the partition it reads.
    pub fn store_consumer_offset(
        &mut self,
        session: &Session,
        consumer: PollingConsumer,
        stream_id: &Identifier,
        topic_id: &Identifier,
        offset: u64,
    ) -> (r: Result<(), IggyError>)
        requires
            old(self).wf(),
        ensures
            final(self).wf(),
            stored_consumer_offset(
                *old(self),
                *final(self),
                *session,
                consumer,
                stream_id@,
                topic_id@,
                offset,
                r,
            ),
    {
        let (si, ti) = self.enter_topic(session, Action::PollMessages, stream_id, topic_id)?;
        let i = self.streams[si].topics[ti].resolve_partition(consumer)?;
        let key = consumer.key();
        let previous = self.streams[si].topics[ti].partitions[i].get_offset(key);
        let r = self.streams[si].topics[ti].store_consumer_offset(consumer, offset);
        proof {
            lemma_topic_change_keeps_wf(*old(self), *self, si as int, ti as int);
        }
        self.outbox.push(
            StorageRequest::StoreOffset {
                stream_id: self.streams[si].id,
                topic_id: self.streams[si].topics[ti].id,
                partition_id: (i + 1) as u32,
                consumer: key,
                offset,
                previous,
            },
        );
        r
    }
}

} // verus!
