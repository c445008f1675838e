//! Operations on topics and their partitions.

use crate::error::IggyError;
use crate::identifier::Identifier;
use crate::identifier::IdentifierView;
use crate::permissions::Action;
use crate::shard::lemma_stream_change_keeps_wf;
use crate::shard::lemma_topic_change_keeps_wf;
use crate::shard::only_stream;
use crate::shard::only_topic;
use crate::shard::unchanged;
use crate::shard::IggyShard;
use crate::streaming::registry::locate;
use crate::streaming::session::Session;
use crate::streaming::stream::created_topic;
use crate::streaming::stream::purged;
use crate::streaming::stream::updated_topic;
use crate::streaming::stream::TopicSettings;
use crate::streaming::topic::added_partitions;
use crate::streaming::topic::removed_partitions;
use crate::topics::CompressionAlgorithm;
use vstd::prelude::*;

verus! {

/// What [`IggyShard::create_topic`] does: once the session is admitted with
/// the right to manage topics and the stream is found, what
/// [`created_topic`] says of the stream; nothing else changes.
pub open spec fn created_topic_in(
    before: IggyShard,
    after: IggyShard,
    session: Session,
    stream_id: IdentifierView,
    topic_id: Option<u32>,
    name: Seq<u8>,
    partitions_count: u32,
    settings: TopicSettings,
    r: Result<u32, IggyError>,
) -> bool {
    match before.admit_stream(session, Action::ManageTopics, stream_id) {
        Err(e) => r == Err::<u32, IggyError>(e) && unchanged(before, after),
        Ok(si) => only_stream(before, after, si) && created_topic(
            before.streams@[si],
            after.streams@[si],
            topic_id,
            name,
            partitions_count,
            settings,
            r,
        ),
    }
}

/// What [`IggyShard::update_topic`] does: once the session is admitted with
/// the right to manage topics and the stream is found, what
/// [`updated_topic`] says of the stream; nothing else changes.
pub open spec fn updated_topic_in(
    before: IggyShard,
    after: IggyShard,
    session: Session,
    stream_id: IdentifierView,
    topic_id: IdentifierView,
    name: Seq<u8>,
    settings: TopicSettings,
    r: Result<(), IggyError>,
) -> bool {
    match before.admit_stream(session, Action::ManageTopics, stream_id) {
        Err(e) => r == Err::<(), IggyError>(e) && unchanged(before, after),
        Ok(si) => only_stream(before, after, si) && updated_topic(
            before.streams@[si],
            after.streams@[si],
            topic_id,
            name,
            settings,
            r,
        ),
    }
}

/// What [`IggyShard::delete_topic`] does: once the session is admitted with
/// the right to manage topics and the stream is found, the topic that the
/// identifier names is gone with everything beneath it; without such a topic
/// the result is `NotFound` and nothing changes.
pub open spec fn deleted_topic_in(
    before: IggyShard,
    after: IggyShard,
    session: Session,
    stream_id: IdentifierView,
    topic_id: IdentifierView,
    r: Result<(), IggyError>,
) -> bool {
    match before.admit_stream(session, Action::ManageTopics, stream_id) {
        Err(e) => r == Err::<(), IggyError>(e) && unchanged(before, after),
        Ok(si) => match locate(before.streams@[si].topics@, topic_id) {
            Some(ti) => r is Ok && only_stream(before, after, si) && after.streams@[si].name
                == before.streams@[si].name && after.streams@[si].topics@
                == before.streams@[si].topics@.remove(ti),
            None => r == Err::<(), IggyError>(IggyError::NotFound) && unchanged(before, after),
        },
    }
}

/// What [`IggyShard::purge_topic`] does: once the session is admitted with
/// the right to manage topics and the topic is found, its partitions hold no
/// messages and no stored offsets; nothing else changes.
pub open spec fn purged_topic_in(
    before: IggyShard,
    after: IggyShard,
    session: Session,
    stream_id: IdentifierView,
    topic_id: IdentifierView,
    r: Result<(), IggyError>,
) -> bool {
    match before.admit_topic(session, Action::ManageTopics, stream_id, topic_id) {
        Err(e) => r == Err::<(), IggyError>(e) && unchanged(before, after),
        Ok((si, ti)) => r is Ok && only_topic(before, after, si, ti) && purged(
            before.streams@[si].topics@[ti],
            after.streams@[si].topics@[ti],
        ),
    }
}

/// What [`IggyShard::create_partitions`] does: once the session is admitted
/// with the right to manage topics and the topic is found, what
/// [`added_partitions`] says of the topic; nothing else changes.
pub open spec fn created_partitions_in(
    before: IggyShard,
    after: IggyShard,
    session: Session,
    stream_id: IdentifierView,
    topic_id: IdentifierView,
    count: u32,
    r: Result<(), IggyError>,
) -> bool {
    match before.admit_topic(session, Action::ManageTopics, stream_id, topic_id) {
        Err(e) => r == Err::<(), IggyError>(e) && unchanged(before, after),
        Ok((si, ti)) => only_topic(before, after, si, ti) && added_partitions(
            before.streams@[si].topics@[ti],
            after.streams@[si].topics@[ti],
            count,
            r,
        ),
    }
}

/// What [`IggyShard::delete_partitions`] does: once the session is admitted
/// with the right to manage topics and the topic is found, what
/// [`removed_partitions`] says of the topic; nothing else changes.
pub open spec fn deleted_partitions_in(
    before: IggyShard,
    after: IggyShard,
    session: Session,
    stream_id: IdentifierView,
    topic_id: IdentifierView,
    count: u32,
    r: Result<(), IggyError>,
) -> bool {
    match before.admit_topic(session, Action::ManageTopics, stream_id, topic_id) {
        Err(e) => r == Err::<(), IggyError>(e) && unchanged(before, after),
        Ok((si, ti)) => only_topic(before, after, si, ti) && removed_partitions(
            before.streams@[si].topics@[ti],
            after.streams@[si].topics@[ti],
            count,
            r,
        ),
    }
}

impl IggyShard {
    /// Finds a topic for reading: the indexes of its stream and of the topic
    /// itself.  The session needs the right to read topics.
    pub fn find_topic(&self, session: &Session, stream_id: &Identifier, topic_id: &Identifier) -> (r:
        Result<(usize, usize), IggyError>)
        requires
            self.wf(),
        ensures
            match r {
                Ok((si, ti)) => self.admit_topic(
                    *session,
                    Action::ReadTopics,
                    stream_id@,
                    topic_id@,
                ) == Ok::<(int, int), IggyError>((si as int, ti as int)) && si
                    < self.streams@.len() && ti < self.streams@[si as int].topics@.len(),
                Err(e) => self.admit_topic(*session, Action::ReadTopics, stream_id@, topic_id@)
                    == Err::<(int, int), IggyError>(e),
            },
    {
        self.enter_topic(session, Action::ReadTopics, stream_id, topic_id)
    }

    /// Finds the stream whose topics are to be read.  The session needs the
    /// right to read topics.
    pub fn find_topics(&self, session: &Session, stream_id: &Identifier) -> (r: Result<
        usize,
        IggyError,
    >)
        requires
            self.wf(),
        ensures
            match r {
                Ok(si) => self.admit_stream(*session, Action::ReadTopics, stream_id@) == Ok::<
                    int,
                    IggyError,
                >(si as int) && si < self.streams@.len(),
                Err(e) => self.admit_stream(*session, Action::ReadTopics, stream_id@) == Err::<
                    int,
                    IggyError,
                >(e),
            },
    {
        self.enter_stream(session, Action::ReadTopics, stream_id)
    }

    /// Creates a topic in a stream and returns its id.
    pub fn create_topic(
        &mut self,
        session: &Session,
        stream_id: &Identifier,
        topic_id: Option<u32>,
        name: &Vec<u8>,
        partitions_count: u32,
        message_expiry: Option<u32>,
        compression_algorithm: CompressionAlgorithm,
        max_topic_size: Option<u64>,
        replication_factor: u8,
    ) -> (r: Result<u32, IggyError>)
        requires
            old(self).wf(),
        ensures
            final(self).wf(),
            created_topic_in(
                *old(self),
                *final(self),
                *session,
                stream_id@,
                topic_id,
                name@,
                partitions_count,
                TopicSettings {
                    message_expiry,
                    compression_algorithm,
                    max_topic_size,
                    replication_factor,
                },
                r,
            ),
    {
        let si = self.enter_stream(session, Action::ManageTopics, stream_id)?;
        let r = self.streams[si].create_topic(
            topic_id,
            name,
            partitions_count,
            message_expiry,
            compression_algorithm,
            max_topic_size,
            replication_factor,
        );
        proof {
            lemma_stream_change_keeps_wf(*old(self), *self, si as int);
        }
        r
    }

    /// Gives a topic a new name and new settings.
    pub fn update_topic(
        &mut self,
        session: &Session,
        stream_id: &Identifier,
        topic_id: &Identifier,
        name: &Vec<u8>,
        message_expiry: Option<u32>,
        compression_algorithm: CompressionAlgorithm,
        max_topic_size: Option<u64>,
        replication_factor: u8,
    ) -> (r: Result<(), IggyError>)
        requires
            old(self).wf(),
        ensures
            final(self).wf(),
            updated_topic_in(
                *old(self),
                *final(self),
                *session,
                stream_id@,
                topic_id@,
                name@,
                TopicSettings {
                    message_expiry,
                    compression_algorithm,
                    max_topic_size,
                    replication_factor,
                },
                r,
            ),
    {
        let si = self.enter_stream(session, Action::ManageTopics, stream_id)?;
        let r = self.streams[si].update_topic(
            topic_id,
            name,
            message_expiry,
            compression_algorithm,
            max_topic_size,
            replication_factor,
        );
        proof {
            lemma_stream_change_keeps_wf(*old(self), *self, si as int);
        }
        r
    }

    /// Deletes a topic with all its partitions, messages and consumer
    /// groups.
    pub fn delete_topic(&mut self, session: &Session, stream_id: &Identifier, topic_id: &Identifier) -> (r:
        Result<(), IggyError>)
        requires
            old(self).wf(),
        ensures
            final(self).wf(),
            deleted_topic_in(*old(self), *final(self), *session, stream_id@, topic_id@, r),
    {
        let si = self.enter_stream(session, Action::ManageTopics, stream_id)?;
        let r = self.streams[si].delete_topic(topic_id);
        proof {
            lemma_stream_change_keeps_wf(*old(self), *self, si as int);
        }
        r
    }

    /// Drops the messages and stored offsets of a topic.
    pub fn purge_topic(&mut self, session: &Session, stream_id: &Identifier, topic_id: &Identifier) -> (r:
        Result<(), IggyError>)
        requires
            old(self).wf(),
        ensures
            final(self).wf(),
            purged_topic_in(*old(self), *final(self), *session, stream_id@, topic_id@, r),
    {
        let (si, ti) = self.enter_topic(session, Action::ManageTopics, stream_id, topic_id)?;
        self.streams[si].topics[ti].purge();
        proof {
            lemma_topic_change_keeps_wf(*old(self), *self, si as int, ti as int);
        }
        Ok(())
    }

    /// Adds empty partitions to a topic.
    pub fn create_partitions(
        &mut self,
        session: &Session,
        stream_id: &Identifier,
        topic_id: &Identifier,
        partitions_count: u32,
    ) -> (r: Result<(), IggyError>)
        requires
            old(self).wf(),
        ensures
            final(self).wf(),
            created_partitions_in(
                *old(self),
                *final(self),
                *session,
                stream_id@,
                topic_id@,
                partitions_count,
                r,
            ),
    {
        let (si, ti) = self.enter_topic(session, Action::ManageTopics, stream_id, topic_id)?;
        let r = self.streams[si].topics[ti].add_partitions(partitions_count);
        proof {
            lemma_topic_change_keeps_wf(*old(self), *self, si as int, ti as int);
        }
        r
    }

    /// Removes the last partitions of a topic.
    pub fn delete_partitions(
        &mut self,
        session: &Session,
        stream_id: &Identifier,
        topic_id: &Identifier,
        partitions_count: u32,
    ) -> (r: Result<(), IggyError>)
        requires
            old(self).wf(),
        ensures
            final(self).wf(),
            deleted_partitions_in(
                *old(self),
                *final(self),
                *session,
                stream_id@,
                topic_id@,
                partitions_count,
                r,
            ),
    {
        let (si, ti) = self.enter_topic(session, Action::ManageTopics, stream_id, topic_id)?;
        let r = self.streams[si].topics[ti].remove_partitions(partitions_count);
        proof {
            lemma_topic_change_keeps_wf(*old(self), *self, si as int, ti as int);
        }
        r
    }
}

} // verus!
