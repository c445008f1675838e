//! Operations on consumer groups.

use crate::error::IggyError;
use crate::identifier::Identifier;
use crate::identifier::IdentifierView;
use crate::permissions::Action;
use crate::shard::lemma_topic_change_keeps_wf;
use crate::shard::lemma_untouched;
use crate::shard::only_topic;
use crate::shard::unchanged;
use crate::shard::IggyShard;
use crate::streaming::consumer_group::joined;
use crate::streaming::consumer_group::left;
use crate::streaming::registry::find;
use crate::streaming::registry::locate;
use crate::streaming::session::Session;
use crate::streaming::topic::created_group;
use crate::streaming::topic::group_changed;
use vstd::prelude::*;

verus! {

/// What [`IggyShard::create_consumer_group`] does: once the session is
/// admitted with the right to manage topics and the topic is found, what
/// [`created_group`] says of the topic; nothing else changes.
pub open spec fn created_consumer_group(
    before: IggyShard,
    after: IggyShard,
    session: Session,
    stream_id: IdentifierView,
    topic_id: IdentifierView,
    group_id: Option<u32>,
    name: Seq<u8>,
    r: Result<u32, IggyError>,
) -> bool {
    match before.admit_topic(session, Action::ManageTopics, stream_id, topic_id) {
        Err(e) => r == Err::<u32, IggyError>(e) && unchanged(before, after),
        Ok((si, ti)) => only_topic(before, after, si, ti) && created_group(
            before.streams@[si].topics@[ti],
            after.streams@[si].topics@[ti],
            group_id,
            name,
            r,
        ),
    }
}

/// What [`IggyShard::delete_consumer_group`] does: once the session is
/// admitted with the right to manage topics and the topic is found, the
/// group that the identifier names is removed; without such a group the
/// result is `NotFound` and nothing changes.
pub open spec fn deleted_consumer_group(
    before: IggyShard,
    after: IggyShard,
    session: Session,
    stream_id: IdentifierView,
    topic_id: IdentifierView,
    group_id: IdentifierView,
    r: Result<(), IggyError>,
) -> bool {
    match before.admit_topic(session, Action::ManageTopics, stream_id, topic_id) {
        Err(e) => r == Err::<(), IggyError>(e) && unchanged(before, after),
        Ok((si, ti)) => {
            let topic = before.streams@[si].topics@[ti];
            let changed = after.streams@[si].topics@[ti];
            match locate(topic.groups@, group_id) {
                Some(g) => r is Ok && only_topic(before, after, si, ti) && changed.groups@
                    == topic.groups@.remove(g) && changed.same_head(topic) && changed.partitions
                    == topic.partitions && changed.next_partition == topic.next_partition,
                None => r == Err::<(), IggyError>(IggyError::NotFound) && unchanged(before, after),
            }
        },
    }
}

/// What [`IggyShard::join_consumer_group`] does: once the session is
/// admitted with the right to poll messages and topic and group are found,
/// the client of the session is a member of the group; nothing else
/// changes.
pub open spec fn joined_consumer_group(
    before: IggyShard,
    after: IggyShard,
    session: Session,
    stream_id: IdentifierView,
    topic_id: IdentifierView,
    group_id: IdentifierView,
    r: Result<(), IggyError>,
) -> bool {
    match before.admit_topic(session, Action::PollMessages, stream_id, topic_id) {
        Err(e) => r == Err::<(), IggyError>(e) && unchanged(before, after),
        Ok((si, ti)) => {
            let topic = before.streams@[si].topics@[ti];
            let changed = after.streams@[si].topics@[ti];
            match locate(topic.groups@, group_id) {
                Some(g) => r is Ok && only_topic(before, after, si, ti) && group_changed(
                    topic,
                    changed,
                    g,
                ) && joined(topic.groups@[g], changed.groups@[g], session.client_id),
                None => r == Err::<(), IggyError>(IggyError::NotFound) && unchanged(before, after),
            }
        },
    }
}

/// What [`IggyShard::leave_consumer_group`] does: once the session is
/// admitted with the right to poll messages and topic and group are found,
/// the client of the session is no longer a member of the group; where it was
/// none the result is `NotFound` and nothing changes.
pub open spec fn left_consumer_group(
    before: IggyShard,
    after: IggyShard,
    session: Session,
    stream_id: IdentifierView,
    topic_id: IdentifierView,
    group_id: IdentifierView,
    r: Result<(), IggyError>,
) -> bool {
    match before.admit_topic(session, Action::PollMessages, stream_id, topic_id) {
        Err(e) => r == Err::<(), IggyError>(e) && unchanged(before, after),
        Ok((si, ti)) => {
            let topic = before.streams@[si].topics@[ti];
            let changed = after.streams@[si].topics@[ti];
            match locate(topic.groups@, group_id) {
                Some(g) => if topic.groups@[g].members@.contains(session.client_id) {
                    r is Ok && only_topic(before, after, si, ti) && group_changed(topic, changed, g)
                        && left(topic.groups@[g], changed.groups@[g], session.client_id)
                } else {
                    r == Err::<(), IggyError>(IggyError::NotFound) && unchanged(before, after)
                },
                None => r == Err::<(), IggyError>(IggyError::NotFound) && unchanged(before, after),
            }
        },
    }
}

impl IggyShard {
    /// Finds a consumer group for reading: the indexes of its stream, its
    /// topic and the group itself.  The session needs the right to read
    /// topics.
    pub fn get_consumer_group(
        &self,
        session: &Session,
        stream_id: &Identifier,
        topic_id: &Identifier,
        group_id: &Identifier,
    ) -> (r: Result<(usize, usize, usize), IggyError>)
        requires
            self.wf(),
        ensures
            match r {
                Ok((si, ti, g)) => self.admit_topic(
                    *session,
                    Action::ReadTopics,
                    stream_id@,
                    topic_id@,
                ) == Ok::<(int, int), IggyError>((si as int, ti as int)) && si
                    < self.streams@.len() && ti < self.streams@[si as int].topics@.len() && g
                    < self.streams@[si as int].topics@[ti as int].groups@.len() && locate(
                    self.streams@[si as int].topics@[ti as int].groups@,
                    group_id@,
                ) == Some(g as int),
                Err(e) => match self.admit_topic(
                    *session,
                    Action::ReadTopics,
                    stream_id@,
                    topic_id@,
                ) {
                    Err(refused) => e == refused,
                    Ok((si, ti)) => e == IggyError::NotFound && locate(
                        self.streams@[si].topics@[ti].groups@,
                        group_id@,
                    ) is None,
                },
            },
    {
        let (si, ti) = self.enter_topic(session, Action::ReadTopics, stream_id, topic_id)?;
        match find(&self.streams[si].topics[ti].groups, group_id) {
            Some(g) => Ok((si, ti, g)),
            None => Err(IggyError::NotFound),
        }
    }

    /// Finds the topic whose consumer groups are to be read.  The session
    /// needs the right to read topics.
    pub fn get_consumer_groups(&self, session: &Session, stream_id: &Identifier, topic_id: &Identifier) -> (r:
        Result<(usize, usize), IggyError>)
        requires
            self.wf(),
        ensures
            match r {
                Ok((si, ti)) => self.admit_topic(
                    *session,
                    Action::ReadTopics,
                    stream_id@,
                    topic_id@,
                ) == Ok::<(int, int), IggyError>((si as int, ti as int)) && si
                    < self.streams@.len() && ti < self.streams@[si as int].topics@.len(),
                Err(e) => self.admit_topic(*session, Action::ReadTopics, stream_id@, topic_id@)
                    == Err::<(int, int), IggyError>(e),
            },
    {
        self.enter_topic(session, Action::ReadTopics, stream_id, topic_id)
    }

    /// Creates a consumer group in a topic and returns its id.
    pub fn create_consumer_group(
        &mut self,
        session: &Session,
        stream_id: &Identifier,
        topic_id: &Identifier,
        group_id: Option<u32>,
        name: &Vec<u8>,
    ) -> (r: Result<u32, IggyError>)
        requires
            old(self).wf(),
        ensures
            final(self).wf(),
            created_consumer_group(
                *old(self),
                *final(self),
                *session,
                stream_id@,
                topic_id@,
                group_id,
                name@,
                r,
            ),
    {
        let (si, ti) = self.enter_topic(session, Action::ManageTopics, stream_id, topic_id)?;
        let r = self.streams[si].topics[ti].create_consumer_group(group_id, name);
        proof {
            lemma_topic_change_keeps_wf(*old(self), *self, si as int, ti as int);
            if r is Err {
                lemma_untouched(*old(self), *self, si as int, ti as int);
            }
        }
        r
    }

    /// Deletes a consumer group of a topic.
    pub fn delete_consumer_group(
        &mut self,
        session: &Session,
        stream_id: &Identifier,
        topic_id: &Identifier,
        group_id: &Identifier,
    ) -> (r: Result<(), IggyError>)
        requires
            old(self).wf(),
        ensures
            final(self).wf(),
            deleted_consumer_group(
                *old(self),
                *final(self),
                *session,
                stream_id@,
                topic_id@,
                group_id@,
                r,
            ),
    {
        let (si, ti) = self.enter_topic(session, Action::ManageTopics, stream_id, topic_id)?;
        let r = self.streams[si].topics[ti].delete_consumer_group(group_id);
        proof {
            lemma_topic_change_keeps_wf(*old(self), *self, si as int, ti as int);
            if r is Err {
                lemma_untouched(*old(self), *self, si as int, ti as int);
            }
        }
        r
    }

    /// Makes the client of the session a member of a consumer group.
    pub fn join_consumer_group(
        &mut self,
        session: &Session,
        stream_id: &Identifier,
        topic_id: &Identifier,
        group_id: &Identifier,
    ) -> (r: Result<(), IggyError>)
        requires
            old(self).wf(),
        ensures
            final(self).wf(),
            joined_consumer_group(
                *old(self),
                *final(self),
                *session,
                stream_id@,
                topic_id@,
                group_id@,
                r,
            ),
    {
        let (si, ti) = self.enter_topic(session, Action::PollMessages, stream_id, topic_id)?;
        let r = self.streams[si].topics[ti].join_consumer_group(group_id, session.client_id);
        proof {
            lemma_topic_change_keeps_wf(*old(self), *self, si as int, ti as int);
            if r is Err {
                lemma_untouched(*old(self), *self, si as int, ti as int);
            }
        }
        r
    }

    /// Ends the membership of the client of the session in a consumer
    /// group.
    pub fn leave_consumer_group(
        &mut self,
        session: &Session,
        stream_id: &Identifier,
        topic_id: &Identifier,
        group_id: &Identifier,
    ) -> (r: Result<(), IggyError>)
        requires
            old(self).wf(),
        ensures
            final(self).wf(),
            left_consumer_group(
                *old(self),
                *final(self),
                *session,
                stream_id@,
                topic_id@,
                group_id@,
                r,
            ),
    {
        let (si, ti) = self.enter_topic(session, Action::PollMessages, stream_id, topic_id)?;
        let r = self.streams[si].topics[ti].leave_consumer_group(group_id, session.client_id);
        proof {
            lemma_topic_change_keeps_wf(*old(self), *self, si as int, ti as int);
            if r is Err {
                lemma_untouched(*old(self), *self, si as int, ti as int);
            }
        }
        r
    }
}

} // verus!
