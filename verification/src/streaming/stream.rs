//! A stream: a named set of topics.

use crate::error::IggyError;
use crate::identifier::Identifier;
use crate::identifier::IdentifierView;
use crate::streaming::registry::all_distinct;
use crate::streaming::registry::distinct;
use crate::streaming::registry::find;
use crate::streaming::registry::find_by_id;
use crate::streaming::registry::find_by_name;
use crate::streaming::registry::has_id;
use crate::streaming::registry::has_name;
use crate::streaming::registry::lemma_located;
use crate::streaming::registry::locate;
use crate::streaming::registry::max_id;
use crate::streaming::registry::next_id;
use crate::streaming::registry::Resource;
use crate::streaming::registry::lemma_removed_distinct;
use crate::streaming::topic::Topic;
use crate::topics::CompressionAlgorithm;
use crate::wire::copy_bytes;
use vstd::prelude::*;

verus! {

/// A stream.
#[derive(Debug)]
pub struct Stream {
    /// Id of the stream.
    pub id: u32,
    /// Name of the stream, unique among the streams.
    pub name: Vec<u8>,
    /// The topics of the stream.
    pub topics: Vec<Topic>,
}

impl Resource for Stream {
    open spec fn spec_id(&self) -> u32 {
        self.id
    }

    open spec fn spec_name(&self) -> Seq<u8> {
        self.name@
    }

    fn id(&self) -> (r: u32) {
        self.id
    }

    fn name(&self) -> (r: &Vec<u8>) {
        &self.name
    }
}

/// The settings of a topic that its creation and its update speak of.
pub struct TopicSettings {
    pub message_expiry: Option<u32>,
    pub compression_algorithm: CompressionAlgorithm,
    pub max_topic_size: Option<u64>,
    pub replication_factor: u8,
}

/// Tells whether the topic has the given settings.
pub open spec fn has_settings(topic: Topic, settings: TopicSettings) -> bool {
    &&& topic.message_expiry == settings.message_expiry
    &&& topic.compression_algorithm == settings.compression_algorithm
    &&& topic.max_topic_size == settings.max_topic_size
    &&& topic.replication_factor == settings.replication_factor
}

/// Only the topic at index `i` differs between the two streams.
pub open spec fn topic_changed(before: Stream, after: Stream, i: int) -> bool {
    &&& after.id == before.id
    &&& after.name == before.name
    &&& after.topics@.len() == before.topics@.len()
    &&& forall|j: int| 0 <= j < before.topics@.len() && j != i ==> after.topics@[j] == before.topics@[j]
}

/// What [`Stream::create_topic`] does.
///
/// A topic needs at least one partition and, on a single node, a
/// replication factor of exactly 1: anything else is refused as
/// `InvalidConfiguration`.  An id or a name that is in use is refused as
/// `AlreadyExists`; where no id is given and none is left, the result is
/// `ResourceBusy`.  In all these cases nothing changes.  Otherwise a topic
/// with empty partitions and no consumer groups is added after the topics
/// that were there, and the result is its id.
pub open spec fn created_topic(
    before: Stream,
    after: Stream,
    topic_id: Option<u32>,
    name: Seq<u8>,
    partitions_count: u32,
    settings: TopicSettings,
    r: Result<u32, IggyError>,
) -> bool {
    if partitions_count == 0 || settings.replication_factor != 1 {
        r == Err::<u32, IggyError>(IggyError::InvalidConfiguration) && after == before
    } else if has_name(before.topics@, name) || (topic_id is Some && has_id(
        before.topics@,
        topic_id->Some_0,
    )) {
        r == Err::<u32, IggyError>(IggyError::AlreadyExists) && after == before
    } else if topic_id is None && max_id(before.topics@) == u32::MAX {
        r == Err::<u32, IggyError>(IggyError::ResourceBusy) && after == before
    } else {
        let id = match topic_id {
            Some(id) => id,
            None => (max_id(before.topics@) + 1) as u32,
        };
        let topic = after.topics@.last();
        &&& r == Ok::<u32, IggyError>(id)
        &&& after.id == before.id
        &&& after.name == before.name
        &&& after.topics@.len() == before.topics@.len() + 1
        &&& after.topics@.drop_last() == before.topics@
        &&& topic.id == id
        &&& topic.name@ == name
        &&& has_settings(topic, settings)
        &&& topic.next_partition == 0
        &&& topic.groups@.len() == 0
        &&& topic.partitions@.len() == partitions_count
        &&& forall|i: int|
            0 <= i < topic.partitions@.len() ==> (#[trigger] topic.partitions@[i]).messages@.len()
                == 0 && topic.partitions@[i].offsets@.len() == 0
    }
}

/// What [`Stream::update_topic`] does.
///
/// Where the identifier names no topic the result is `NotFound`; a
/// replication factor other than 1 is refused as `InvalidConfiguration`; a
/// name that another topic bears is refused as `AlreadyExists`; in all these
/// cases nothing changes.  Otherwise the topic gets the name and the
/// settings, and keeps its partitions, messages and consumer groups.
pub open spec fn updated_topic(
    before: Stream,
    after: Stream,
    topic_id: IdentifierView,
    name: Seq<u8>,
    settings: TopicSettings,
    r: Result<(), IggyError>,
) -> bool {
    match locate(before.topics@, topic_id) {
        None => r == Err::<(), IggyError>(IggyError::NotFound) && after == before,
        Some(i) => if settings.replication_factor != 1 {
            r == Err::<(), IggyError>(IggyError::InvalidConfiguration) && after == before
        } else if has_name(before.topics@, name) && before.topics@[i].name@ != name {
            r == Err::<(), IggyError>(IggyError::AlreadyExists) && after == before
        } else {
            &&& r is Ok
            &&& topic_changed(before, after, i)
            &&& after.topics@[i].id == before.topics@[i].id
            &&& after.topics@[i].name@ == name
            &&& has_settings(after.topics@[i], settings)
            &&& after.topics@[i].partitions == before.topics@[i].partitions
            &&& after.topics@[i].groups == before.topics@[i].groups
            &&& after.topics@[i].next_partition == before.topics@[i].next_partition
        },
    }
}

impl Stream {
    /// The topics have unique ids and names, and each is well-formed.
    pub open spec fn wf(self) -> bool {
        &&& distinct(self.topics@)
        &&& forall|i: int| 0 <= i < self.topics@.len() ==> (#[trigger] self.topics@[i]).wf()
    }

    /// Tells whether the stream is well-formed.
    pub fn is_valid(&self) -> (r: bool)
        ensures
            r == self.wf(),
    {
        if !all_distinct(&self.topics) {
            return false;
        }
        let n = self.topics.len();
        let mut i: usize = 0;
        while i < n
            invariant
                i <= n,
                n == self.topics@.len(),
                forall|k: int| 0 <= k < i ==> (#[trigger] self.topics@[k]).wf(),
            decreases n - i,
        {
            if !self.topics[i].is_valid() {
                proof {
                    assert(!self.topics@[i as int].wf());
                }
                return false;
            }
            i += 1;
        }
        true
    }

    /// A new stream without topics.
    pub fn new(id: u32, name: Vec<u8>) -> (r: Stream)
        ensures
            r.wf(),
            r.id == id,
            r.name == name,
            r.topics@.len() == 0,
    {
        Stream { id, name, topics: Vec::new() }
    }

    /// Gives the stream a new name.
    pub fn rename(&mut self, name: Vec<u8>)
        requires
            old(self).wf(),
        ensures
            final(self).wf(),
            final(self).id == old(self).id,
            final(self).name == name,
            final(self).topics == old(self).topics,
    {
        self.name = name;
    }

    /// Creates a topic.
    pub fn create_topic(
        &mut self,
        topic_id: Option<u32>,
        name: &Vec<u8>,
        partitions_count: u32,
        message_expiry: Option<u32>,
        compression_algorithm: CompressionAlgorithm,
        max_topic_size: Option<u64>,
        replication_factor: u8,
    ) -> (r: Result<u32, IggyError>)
        requires
            old(self).wf(),
        ensures
            final(self).wf(),
            created_topic(
                *old(self),
                *final(self),
                topic_id,
                name@,
                partitions_count,
                TopicSettings {
                    message_expiry,
                    compression_algorithm,
                    max_topic_size,
                    replication_factor,
                },
                r,
            ),
    {
        if partitions_count == 0 || replication_factor != 1 {
            return Err(IggyError::InvalidConfiguration);
        }
        if find_by_name(&self.topics, name.as_slice()).is_some() {
            return Err(IggyError::AlreadyExists);
        }
        let id = match topic_id {
            Some(id) => {
                if find_by_id(&self.topics, id).is_some() {
                    return Err(IggyError::AlreadyExists);
                }
                id
            },
            None => match next_id(&self.topics) {
                Some(id) => id,
                None => { return Err(IggyError::ResourceBusy); },
            },
        };
        let topic = Topic::new(
            id,
            copy_bytes(name),
            partitions_count,
            message_expiry,
            compression_algorithm,
            max_topic_size,
            replication_factor,
        );
        let ghost before = self.topics@;
        self.topics.push(topic);
        proof {
            let after = self.topics@;
            assert(after.drop_last() =~= before);
            assert forall|i: int, j: int| 0 <= i < j < after.len() implies (
            #[trigger] after[i]).spec_id() != (#[trigger] after[j]).spec_id() && after[i].spec_name()
                != after[j].spec_name() by {
                if j < before.len() {
                    assert(before[i].spec_id() != before[j].spec_id());
                } else {
                    assert(after[i] == before[i]);
                }
            }
        }
        Ok(id)
    }

    /// Deletes the topic that the identifier names, with all its partitions,
    /// messages and consumer groups.
    pub fn delete_topic(&mut self, topic_id: &Identifier) -> (r: Result<(), IggyError>)
        requires
            old(self).wf(),
        ensures
            final(self).wf(),
            match locate(old(self).topics@, topic_id@) {
                Some(i) => r is Ok && final(self).topics@ == old(self).topics@.remove(i)
                    && final(self).id == old(self).id && final(self).name == old(self).name,
                None => r == Err::<(), IggyError>(IggyError::NotFound) && *final(self) == *old(
                    self,
                ),
            },
    {
        let i = match find(&self.topics, topic_id) {
            Some(i) => i,
            None => { return Err(IggyError::NotFound); },
        };
        let ghost before = self.topics@;
        self.topics.remove(i);
        proof {
            lemma_removed_distinct(before, i as int);
        }
        Ok(())
    }

    /// Gives the topic that the identifier names a new name and new
    /// settings.
    pub fn update_topic(
        &mut self,
        topic_id: &Identifier,
        name: &Vec<u8>,
        message_expiry: Option<u32>,
        compression_algorithm: CompressionAlgorithm,
        max_topic_size: Option<u64>,
        replication_factor: u8,
    ) -> (r: Result<(), IggyError>)
        requires
            old(self).wf(),
        ensures
            final(self).wf(),
            updated_topic(
                *old(self),
                *final(self),
                topic_id@,
                name@,
                TopicSettings {
                    message_expiry,
                    compression_algorithm,
                    max_topic_size,
                    replication_factor,
                },
                r,
            ),
    {
        let i = match find(&self.topics, topic_id) {
            Some(i) => i,
            None => { return Err(IggyError::NotFound); },
        };
        if replication_factor != 1 {
            return Err(IggyError::InvalidConfiguration);
        }
        match find_by_name(&self.topics, name.as_slice()) {
            Some(j) => {
                if j != i {
                    proof {
                        lemma_located(self.topics@, i as int);
                    }
                    return Err(IggyError::AlreadyExists);
                }
            },
            None => {},
        }
        let ghost before = self.topics@;
        self.topics[i].update(
            copy_bytes(name),
            message_expiry,
            compression_algorithm,
            max_topic_size,
            replication_factor,
        );
        proof {
            let after = self.topics@;
            assert forall|a: int, b: int| 0 <= a < b < after.len() implies (
            #[trigger] after[a]).spec_id() != (#[trigger] after[b]).spec_id() && after[a].spec_name()
                != after[b].spec_name() by {
                assert(before[a].spec_id() != before[b].spec_id());
                assert(before[a].spec_name() != before[b].spec_name());
                if a == i {
                    assert(after[b] == before[b]);
                    if before[b].spec_name() == name@ {
                        lemma_located(before, b);
                    }
                } else if b == i {
                    assert(after[a] == before[a]);
                    if before[a].spec_name() == name@ {
                        lemma_located(before, a);
                    }
                } else {
                    assert(after[a] == before[a]);
                    assert(after[b] == before[b]);
                }
            }
        }
        Ok(())
    }

    /// Drops the messages and stored offsets of all topics.
    pub fn purge(&mut self)
        requires
            old(self).wf(),
        ensures
            final(self).wf(),
            final(self).id == old(self).id,
            final(self).name == old(self).name,
            final(self).topics@.len() == old(self).topics@.len(),
            forall|i: int|
                0 <= i < final(self).topics@.len() ==> purged(
                    old(self).topics@[i],
                    #[trigger] final(self).topics@[i],
                ),
    {
        let ghost before = self.topics@;
        let mut i: usize = 0;
        while i < self.topics.len()
            invariant
                i <= self.topics@.len(),
                self.id == old(self).id,
                self.name == old(self).name,
                before == old(self).topics@,
                distinct(before),
                self.topics@.len() == before.len(),
                forall|k: int| 0 <= k < self.topics@.len() ==> (#[trigger] self.topics@[k]).wf(),
                forall|k: int| 0 <= k < i ==> purged(before[k], #[trigger] self.topics@[k]),
                forall|k: int| i <= k < before.len() ==> self.topics@[k] == before[k],
            decreases self.topics@.len() - i,
        {
            self.topics[i].purge();
            i += 1;
        }
        proof {
            let after = self.topics@;
            assert forall|a: int, b: int| 0 <= a < b < after.len() implies (
            #[trigger] after[a]).spec_id() != (#[trigger] after[b]).spec_id() && after[a].spec_name()
                != after[b].spec_name() by {
                assert(before[a].spec_id() != before[b].spec_id());
                assert(purged(before[a], after[a]));
                assert(purged(before[b], after[b]));
            }
        }
    }
}

/// Tells whether `after` is `before` without its messages and stored
/// offsets.
pub open spec fn purged(before: Topic, after: Topic) -> bool {
    &&& after.same_head(before)
    &&& after.groups == before.groups
    &&& after.next_partition == before.next_partition
    &&& after.partitions@.len() == before.partitions@.len()
    &&& forall|i: int|
        0 <= i < after.partitions@.len() ==> (#[trigger] after.partitions@[i]).messages@.len() == 0
            && after.partitions@[i].offsets@.len() == 0
}

} // verus!
