//! A topic: its partitions, its consumer groups, and the choice of the
//! partition that a batch of messages goes to.

use crate::consumer::Consumer;
use crate::error::IggyError;
use crate::identifier::Identifier;
use crate::messages::AppendableMessage;
use crate::partitioning::Partitioning;
use crate::partitioning::PartitioningKind;
use crate::partitioning::PartitioningView;
use crate::polling::PollingStrategy;
use crate::streaming::consumer_group::joined;
use crate::streaming::consumer_group::left;
use crate::streaming::consumer_group::lemma_ranges_adjoin;
use crate::streaming::consumer_group::ConsumerGroup;
use crate::streaming::partition::appended;
use crate::streaming::partition::offset_of;
use crate::streaming::partition::Message;
use crate::streaming::partition::Partition;
use crate::streaming::polling_consumer::PollingConsumer;
use crate::streaming::registry::all_distinct;
use crate::streaming::registry::distinct;
use crate::streaming::registry::find;
use crate::streaming::registry::find_by_id;
use crate::streaming::registry::find_by_name;
use crate::streaming::registry::has_id;
use crate::streaming::registry::has_name;
use crate::streaming::registry::index_of_id;
use crate::streaming::registry::lemma_removed_distinct;
use crate::streaming::registry::lemma_updated_distinct;
use crate::streaming::registry::locate;
use crate::streaming::registry::max_id;
use crate::streaming::registry::next_id;
use crate::streaming::registry::Resource;
use crate::topics::CompressionAlgorithm;
use crate::wire::copy_bytes;
use crate::wire::le_u32;
use crate::wire::read_u32_le;
use vstd::prelude::*;

verus! {

/// The hash of a messages key: every byte in turn is added to 33 times the
/// hash so far, starting from 5381, within 32 bits.
pub open spec fn key_hash(key: Seq<u8>) -> u32
    decreases key.len(),
{
    if key.len() == 0 {
        5381
    } else {
        ((key_hash(key.drop_last()) * 33 + key.last()) % 0x1_0000_0000) as u32
    }
}

/// Computes the hash of a messages key.
pub fn hash_key(key: &[u8]) -> (r: u32)
    ensures
        r == key_hash(key@),
{
    let mut hash: u64 = 5381;
    let mut i: usize = 0;
    while i < key.len()
        invariant
            i <= key@.len(),
            hash == key_hash(key@.take(i as int)),
        decreases key@.len() - i,
    {
        proof {
            assert(key@.take(i + 1).drop_last() =~= key@.take(i as int));
        }
        hash = (hash * 33 + key[i] as u64) % 0x1_0000_0000;
        i += 1;
    }
    proof {
        assert(key@.take(i as int) =~= key@);
    }
    hash as u32
}

/// What a poll returns: the partition that was read, the offset of its last
/// message, and the messages.
#[derive(Debug)]
pub struct PolledMessages {
    /// Id of the partition, counted from 1.
    pub partition_id: u32,
    /// Offset of the last message of the partition, or 0 where it is empty.
    pub current_offset: u64,
    /// The messages, in ascending order of their offsets.
    pub messages: Vec<Message>,
}

/// What is known of a consumer's progress on a partition.
#[derive(Debug, Clone, Copy, PartialEq, Eq, Structural)]
pub struct ConsumerOffsetInfo {
    /// Id of the partition, counted from 1.
    pub partition_id: u32,
    /// Offset of the last message of the partition, or 0 where it is empty.
    pub current_offset: u64,
    /// The offset stored for the consumer, or 0 where none is stored.
    pub stored_offset: u64,
}

/// A topic of a stream.
#[derive(Debug)]
pub struct Topic {
    /// Id of the topic within its stream.
    pub id: u32,
    /// Name of the topic, unique within its stream.
    pub name: Vec<u8>,
    /// The partitions; the partition at index `i` has id `i + 1`.
    pub partitions: Vec<Partition>,
    /// The consumer groups.
    pub groups: Vec<ConsumerGroup>,
    /// Index of the partition that the next balanced batch goes to.
    pub next_partition: u32,
    /// Seconds after which a message expires; `None` for never.
    pub message_expiry: Option<u32>,
    /// Compression of the stored messages.
    pub compression_algorithm: CompressionAlgorithm,
    /// Largest size of the topic in bytes; `None` for unlimited.
    pub max_topic_size: Option<u64>,
    /// Number of copies of each partition.
    pub replication_factor: u8,
}

impl Resource for Topic {
    open spec fn spec_id(&self) -> u32 {
        self.id
    }

    open spec fn spec_name(&self) -> Seq<u8> {
        self.name@
    }

    fn id(&self) -> (r: u32) {
        self.id
    }

    fn name(&self) -> (r: &Vec<u8>) {
        &self.name
    }
}

/// The offset of the last message of a partition, or 0 where it is empty.
pub open spec fn last_offset(partition: Partition) -> u64 {
    if partition.messages@.len() == 0 {
        0
    } else {
        (partition.messages@.len() - 1) as u64
    }
}

impl Topic {
    /// The partitions are numbered from 1 in their order and each is
    /// well-formed; the groups have unique ids and names, are well-formed and
    /// know the number of partitions; the cursor of balanced partitioning
    /// points at a partition.
    pub open spec fn wf(self) -> bool {
        &&& self.partitions@.len() <= u32::MAX
        &&& forall|i: int|
            0 <= i < self.partitions@.len() ==> (#[trigger] self.partitions@[i]).wf()
                && self.partitions@[i].id == i + 1
        &&& distinct(self.groups@)
        &&& forall|g: int|
            0 <= g < self.groups@.len() ==> (#[trigger] self.groups@[g]).wf()
                && self.groups@[g].partitions_count == self.partitions@.len()
        &&& (self.next_partition < self.partitions@.len() || self.next_partition == 0)
    }

    /// The id, the name and the settings are those of `other`.
    pub open spec fn same_head(self, other: Topic) -> bool {
        &&& self.id == other.id
        &&& self.name == other.name
        &&& self.message_expiry == other.message_expiry
        &&& self.compression_algorithm == other.compression_algorithm
        &&& self.max_topic_size == other.max_topic_size
        &&& self.replication_factor == other.replication_factor
    }

    /// The index of the partition that a batch with the given partitioning
    /// goes to, or `None` where there is no such partition.
    ///
    /// Balanced partitioning takes the partition under the cursor; a
    /// partition id names the partition itself; a messages key selects the
    /// partition by its hash, modulo the number of partitions.
    pub open spec fn target(self, partitioning: PartitioningView) -> Option<int> {
        let count = self.partitions@.len() as int;
        if count == 0 {
            None
        } else {
            match partitioning.kind {
                PartitioningKind::Balanced => Some(self.next_partition as int),
                PartitioningKind::PartitionId => {
                    let id = le_u32(partitioning.value);
                    if 1 <= id <= count {
                        Some(id - 1)
                    } else {
                        None
                    }
                },
                PartitioningKind::MessagesKey => Some(key_hash(partitioning.value) as int % count),
            }
        }
    }

    /// The cursor of balanced partitioning after a batch with the given
    /// partitioning: it moves on by one partition, and from the last to the
    /// first, where the batch was balanced, and stays otherwise.
    pub open spec fn cursor_after(self, partitioning: PartitioningView) -> u32 {
        if partitioning.kind == PartitioningKind::Balanced && self.partitions@.len() > 0 {
            ((self.next_partition + 1) % (self.partitions@.len() as int)) as u32
        } else {
            self.next_partition
        }
    }

    /// The index of the partition that a reader reads.
    ///
    /// A single consumer reads the partition it names.  A member of a group
    /// reads the first partition assigned to it, or the partition it names
    /// where that one is assigned to it.  The group must exist (`NotFound`),
    /// the reader must be a member of it and may not name a partition of
    /// another member (`Unauthorized`).
    pub open spec fn polling_partition(self, consumer: PollingConsumer) -> Result<int, IggyError> {
        let count = self.partitions@.len() as int;
        match consumer {
            PollingConsumer::Consumer { partition_id, .. } => if 1 <= partition_id <= count {
                Ok(partition_id - 1)
            } else {
                Err(IggyError::NotFound)
            },
            PollingConsumer::ConsumerGroup { group_id, member_id, partition_id } => if !has_id(
                self.groups@,
                group_id,
            ) {
                Err(IggyError::NotFound)
            } else {
                let group = self.groups@[index_of_id(self.groups@, group_id)];
                if !group.members@.contains(member_id) {
                    Err(IggyError::Unauthorized)
                } else {
                    match partition_id {
                        Some(id) => if 1 <= id <= count && group.holds_partition(
                            member_id,
                            id - 1,
                        ) {
                            Ok(id - 1)
                        } else {
                            Err(IggyError::Unauthorized)
                        },
                        None => if group.partitions_of(member_id).len() == 0 {
                            Err(IggyError::NotFound)
                        } else {
                            Ok(group.partitions_of(member_id)[0] as int)
                        },
                    }
                }
            },
        }
    }

    /// Tells whether the topic is well-formed.
    pub fn is_valid(&self) -> (r: bool)
        ensures
            r == self.wf(),
    {
        let n = self.partitions.len();
        if n > u32::MAX as usize {
            return false;
        }
        if self.next_partition as usize >= n && self.next_partition != 0 {
            return false;
        }
        let mut i: usize = 0;
        while i < n
            invariant
                i <= n,
                n == self.partitions@.len(),
                n <= u32::MAX,
                forall|k: int|
                    0 <= k < i ==> (#[trigger] self.partitions@[k]).wf() && self.partitions@[k].id
                        == k + 1,
            decreases n - i,
        {
            if !self.partitions[i].is_valid() || self.partitions[i].id as usize != i + 1 {
                proof {
                    assert(!(self.partitions@[i as int].wf() && self.partitions@[i as int].id == i
                        + 1));
                }
                return false;
            }
            i += 1;
        }
        if !all_distinct(&self.groups) {
            return false;
        }
        let m = self.groups.len();
        let mut g: usize = 0;
        while g < m
            invariant
                g <= m,
                m == self.groups@.len(),
                n == self.partitions@.len(),
                forall|k: int|
                    0 <= k < g ==> (#[trigger] self.groups@[k]).wf()
                        && self.groups@[k].partitions_count == n,
            decreases m - g,
        {
            if !self.groups[g].is_valid() || self.groups[g].partitions_count as usize != n {
                proof {
                    assert(!(self.groups@[g as int].wf() && self.groups@[g as int].partitions_count
                        == n));
                }
                return false;
            }
            g += 1;
        }
        true
    }

    /// A new topic with `partitions_count` empty partitions and no consumer
    /// group.
    pub fn new(
        id: u32,
        name: Vec<u8>,
        partitions_count: u32,
        message_expiry: Option<u32>,
        compression_algorithm: CompressionAlgorithm,
        max_topic_size: Option<u64>,
        replication_factor: u8,
    ) -> (r: Topic)
        ensures
            r.wf(),
            r.id == id,
            r.name == name,
            r.message_expiry == message_expiry,
            r.compression_algorithm == compression_algorithm,
            r.max_topic_size == max_topic_size,
            r.replication_factor == replication_factor,
            r.next_partition == 0,
            r.groups@.len() == 0,
            r.partitions@.len() == partitions_count,
            forall|i: int|
                0 <= i < r.partitions@.len() ==> (#[trigger] r.partitions@[i]).messages@.len() == 0
                    && r.partitions@[i].offsets@.len() == 0,
    {
        let mut partitions: Vec<Partition> = Vec::new();
        let mut i: u32 = 0;
        while i < partitions_count
            invariant
                i <= partitions_count,
                partitions@.len() == i,
                forall|k: int|
                    0 <= k < partitions@.len() ==> (#[trigger] partitions@[k]).wf()
                        && partitions@[k].id == k + 1 && partitions@[k].messages@.len() == 0
                        && partitions@[k].offsets@.len() == 0,
            decreases partitions_count - i,
        {
            partitions.push(Partition::new(i + 1));
            i += 1;
        }
        Topic {
            id,
            name,
            partitions,
            groups: Vec::new(),
            next_partition: 0,
            message_expiry,
            compression_algorithm,
            max_topic_size,
            replication_factor,
        }
    }

    /// Gives the topic a new name and new settings.  Partitions, messages and
    /// consumer groups stay as they are.
    pub fn update(
        &mut self,
        name: Vec<u8>,
        message_expiry: Option<u32>,
        compression_algorithm: CompressionAlgorithm,
        max_topic_size: Option<u64>,
        replication_factor: u8,
    )
        requires
            old(self).wf(),
        ensures
            final(self).wf(),
            final(self).id == old(self).id,
            final(self).name == name,
            final(self).message_expiry == message_expiry,
            final(self).compression_algorithm == compression_algorithm,
            final(self).max_topic_size == max_topic_size,
            final(self).replication_factor == replication_factor,
            final(self).partitions == old(self).partitions,
            final(self).groups == old(self).groups,
            final(self).next_partition == old(self).next_partition,
    {
        self.name = name;
        self.message_expiry = message_expiry;
        self.compression_algorithm = compression_algorithm;
        self.max_topic_size = max_topic_size;
        self.replication_factor = replication_factor;
    }

    /// Tells every consumer group the number of partitions.
    fn sync_groups(&mut self)
        requires
            old(self).partitions@.len() <= u32::MAX,
            distinct(old(self).groups@),
            forall|g: int| 0 <= g < old(self).groups@.len() ==> (#[trigger] old(self).groups@[g]).wf(),
        ensures
            final(self).same_head(*old(self)),
            final(self).partitions == old(self).partitions,
            final(self).next_partition == old(self).next_partition,
            distinct(final(self).groups@),
            same_groups(old(self).groups@, final(self).groups@),
            forall|g: int|
                0 <= g < final(self).groups@.len() ==> (#[trigger] final(self).groups@[g]).wf()
                    && final(self).groups@[g].partitions_count == final(self).partitions@.len(),
    {
        let count = self.partitions.len() as u32;
        let ghost before = self.groups@;
        let mut g: usize = 0;
        while g < self.groups.len()
            invariant
                g <= self.groups@.len(),
                count == self.partitions@.len(),
                self.same_head(*old(self)),
                self.partitions == old(self).partitions,
                self.next_partition == old(self).next_partition,
                before == old(self).groups@,
                self.groups@.len() == before.len(),
                forall|k: int|
                    0 <= k < before.len() ==> (#[trigger] self.groups@[k]).wf() && self.groups@[k].id
                        == before[k].id && self.groups@[k].name == before[k].name
                        && self.groups@[k].members == before[k].members,
                forall|k: int| 0 <= k < g ==> (#[trigger] self.groups@[k]).partitions_count == count,
            decreases self.groups@.len() - g,
        {
            self.groups[g].set_partitions_count(count);
            g += 1;
        }
        proof {
            let after = self.groups@;
            assert forall|i: int, j: int| 0 <= i < j < after.len() implies (
            #[trigger] after[i]).spec_id() != (#[trigger] after[j]).spec_id() && after[i].spec_name()
                != after[j].spec_name() by {
                assert(before[i].spec_id() != before[j].spec_id());
                assert(before[i].spec_name() != before[j].spec_name());
            }
        }
    }

    /// Adds `count` empty partitions after the last one.  A count of 0, or
    /// one that would lead to more than `u32::MAX` partitions, is refused as
    /// `InvalidConfiguration`.
    pub fn add_partitions(&mut self, count: u32) -> (r: Result<(), IggyError>)
        requires
            old(self).wf(),
        ensures
            final(self).wf(),
            final(self).same_head(*old(self)),
            added_partitions(*old(self), *final(self), count, r),
    {
        let len = self.partitions.len();
        if count == 0 || count as usize > u32::MAX as usize - len {
            return Err(IggyError::InvalidConfiguration);
        }
        let ghost before = self.partitions@;
        let mut i: u32 = 0;
        while i < count
            invariant
                i <= count,
                len == before.len(),
                len + count <= u32::MAX,
                before == old(self).partitions@,
                self.same_head(*old(self)),
                self.groups == old(self).groups,
                self.next_partition == old(self).next_partition,
                self.partitions@.len() == len + i,
                forall|k: int| 0 <= k < len ==> self.partitions@[k] == before[k],
                forall|k: int|
                    0 <= k < self.partitions@.len() ==> (#[trigger] self.partitions@[k]).wf()
                        && self.partitions@[k].id == k + 1,
                forall|k: int|
                    len <= k < self.partitions@.len() ==> (
                    #[trigger] self.partitions@[k]).messages@.len() == 0
                        && self.partitions@[k].offsets@.len() == 0,
            decreases count - i,
        {
            self.partitions.push(Partition::new(len as u32 + i + 1));
            i += 1;
        }
        self.sync_groups();
        Ok(())
    }

    /// Removes the last `count` partitions with all their messages.  A count
    /// of 0, or one above the number of partitions, is refused as
    /// `InvalidConfiguration`.
    pub fn remove_partitions(&mut self, count: u32) -> (r: Result<(), IggyError>)
        requires
            old(self).wf(),
        ensures
            final(self).wf(),
            final(self).same_head(*old(self)),
            removed_partitions(*old(self), *final(self), count, r),
    {
        let len = self.partitions.len();
        if count == 0 || count as usize > len {
            return Err(IggyError::InvalidConfiguration);
        }
        let keep = len - count as usize;
        self.partitions.truncate(keep);
        if self.next_partition as usize >= keep {
            self.next_partition = 0;
        }
        proof {
            assert(self.partitions@ =~= old(self).partitions@.take(keep as int));
        }
        self.sync_groups();
        Ok(())
    }

    /// Drops all messages and stored offsets of all partitions.
    pub fn purge(&mut self)
        requires
            old(self).wf(),
        ensures
            final(self).wf(),
            final(self).same_head(*old(self)),
            final(self).groups == old(self).groups,
            final(self).next_partition == old(self).next_partition,
            final(self).partitions@.len() == old(self).partitions@.len(),
            forall|i: int|
                0 <= i < final(self).partitions@.len() ==> (
                #[trigger] final(self).partitions@[i]).messages@.len() == 0
                    && final(self).partitions@[i].offsets@.len() == 0,
    {
        let mut i: usize = 0;
        while i < self.partitions.len()
            invariant
                i <= self.partitions@.len(),
                self.same_head(*old(self)),
                self.groups == old(self).groups,
                self.next_partition == old(self).next_partition,
                self.partitions@.len() == old(self).partitions@.len(),
                forall|k: int|
                    0 <= k < self.partitions@.len() ==> (#[trigger] self.partitions@[k]).wf()
                        && self.partitions@[k].id == k + 1,
                forall|k: int|
                    0 <= k < i ==> (#[trigger] self.partitions@[k]).messages@.len() == 0
                        && self.partitions@[k].offsets@.len() == 0,
            decreases self.partitions@.len() - i,
        {
            self.partitions[i].purge();
            i += 1;
        }
    }

    /// The index of the partition that a batch with the given partitioning
    /// goes to.
    pub fn choose_partition(&self, partitioning: &Partitioning) -> (r: Option<usize>)
        requires
            self.wf(),
            partitioning@.wf(),
        ensures
            match r {
                Some(i) => self.target(partitioning@) == Some(i as int) && i
                    < self.partitions@.len(),
                None => self.target(partitioning@) is None,
            },
    {
        let count = self.partitions.len();
        if count == 0 {
            return None;
        }
        match partitioning.kind {
            PartitioningKind::Balanced => Some(self.next_partition as usize),
            PartitioningKind::PartitionId => {
                let id = read_u32_le(partitioning.value.as_slice(), 0) as usize;
                proof {
                    assert(partitioning.value@.skip(0) =~= partitioning.value@);
                }
                if 1 <= id && id <= count {
                    Some(id - 1)
                } else {
                    None
                }
            },
            PartitioningKind::MessagesKey => {
                let hash = hash_key(partitioning.value.as_slice());
                Some(hash as usize % count)
            },
        }
    }

    /// Appends a batch to the partition that the partitioning selects, and
    /// returns the id of that partition and the offset of the first message
    /// of the batch.  The batch is appended as a whole or not at all.
    pub fn append_messages(
        &mut self,
        partitioning: &Partitioning,
        batch: &Vec<AppendableMessage>,
        now: u64,
    ) -> (r: Result<(u32, u64), IggyError>)
        requires
            old(self).wf(),
            partitioning@.wf(),
        ensures
            final(self).wf(),
            final(self).same_head(*old(self)),
            appended_to_topic(*old(self), *final(self), partitioning@, batch@, now, r),
    {
        let i = match self.choose_partition(partitioning) {
            Some(i) => i,
            None => { return Err(IggyError::NotFound); },
        };
        let len = self.partitions[i].messages.len();
        if batch.len() as u64 > u64::MAX - len as u64 {
            return Err(IggyError::ResourceBusy);
        }
        let first = self.partitions[i].append(batch, now);
        match partitioning.kind {
            PartitioningKind::Balanced => {
                self.next_partition = ((self.next_partition as usize + 1)
                    % self.partitions.len()) as u32;
            },
            _ => {},
        }
        Ok(((i + 1) as u32, first))
    }

    /// The index of the partition that the reader reads.
    pub fn resolve_partition(&self, consumer: PollingConsumer) -> (r: Result<usize, IggyError>)
        requires
            self.wf(),
        ensures
            match r {
                Ok(i) => self.polling_partition(consumer) == Ok::<int, IggyError>(i as int) && i
                    < self.partitions@.len(),
                Err(e) => self.polling_partition(consumer) == Err::<int, IggyError>(e),
            },
    {
        let count = self.partitions.len();
        match consumer {
            PollingConsumer::Consumer { consumer_id: _, partition_id } => {
                if 1 <= partition_id && partition_id as usize <= count {
                    Ok(partition_id as usize - 1)
                } else {
                    Err(IggyError::NotFound)
                }
            },
            PollingConsumer::ConsumerGroup { group_id, member_id, partition_id } => {
                let g = match find_by_id(&self.groups, group_id) {
                    Some(g) => g,
                    None => { return Err(IggyError::NotFound); },
                };
                let group = &self.groups[g];
                if group.member_index(member_id).is_none() {
                    return Err(IggyError::Unauthorized);
                }
                match partition_id {
                    Some(id) => {
                        if 1 <= id && id as usize <= count && group.is_assigned(member_id, id - 1) {
                            Ok(id as usize - 1)
                        } else {
                            Err(IggyError::Unauthorized)
                        }
                    },
                    None => match group.first_assigned(member_id) {
                        Some(partition) => {
                            proof {
                                lemma_ranges_adjoin(
                                    group.partitions_count as nat,
                                    group.members@.len(),
                                    group.members@.index_of(member_id) as nat,
                                );
                            }
                            Ok(partition as usize)
                        },
                        None => Err(IggyError::NotFound),
                    },
                }
            },
        }
    }

    /// Reads up to `count` messages for the reader, starting where the
    /// strategy says.  With `auto_commit` the offset just after the last
    /// returned message is stored for the reader before the result is handed
    /// out.
    pub fn poll_messages(
        &mut self,
        consumer: PollingConsumer,
        strategy: PollingStrategy,
        count: u32,
        auto_commit: bool,
    ) -> (r: Result<PolledMessages, IggyError>)
        requires
            old(self).wf(),
        ensures
            final(self).wf(),
            final(self).same_head(*old(self)),
            polled(*old(self), *final(self), consumer, strategy, count, auto_commit, r),
    {
        let i = self.resolve_partition(consumer)?;
        let key = consumer.key();
        let start = self.partitions[i].resolve_start(key, strategy, count);
        let messages = self.partitions[i].poll(start, count);
        let len = self.partitions[i].messages.len();
        let current_offset = if len == 0 {
            0
        } else {
            (len - 1) as u64
        };
        if auto_commit && messages.len() > 0 {
            let next = start + messages.len() as u64;
            self.partitions[i].store_offset(key, next);
        }
        Ok(PolledMessages { partition_id: (i + 1) as u32, current_offset, messages })
    }

    /// Stores `offset` for the reader on the partition it reads.
    pub fn store_consumer_offset(&mut self, consumer: PollingConsumer, offset: u64) -> (r: Result<
        (),
        IggyError,
    >)
        requires
            old(self).wf(),
        ensures
            final(self).wf(),
            final(self).same_head(*old(self)),
            match old(self).polling_partition(consumer) {
                Ok(i) => r is Ok && stored_in_topic(
                    *old(self),
                    *final(self),
                    i,
                    consumer.spec_key(),
                    offset,
                ),
                Err(e) => r == Err::<(), IggyError>(e) && *final(self) == *old(self),
            },
    {
        let i = self.resolve_partition(consumer)?;
        self.partitions[i].store_offset(consumer.key(), offset);
        Ok(())
    }

    /// What is stored for the reader on the partition it reads.
    pub fn get_consumer_offset(&self, consumer: PollingConsumer) -> (r: Result<
        ConsumerOffsetInfo,
        IggyError,
    >)
        requires
            self.wf(),
        ensures
            match self.polling_partition(consumer) {
                Ok(i) => r == Ok::<ConsumerOffsetInfo, IggyError>(
                    ConsumerOffsetInfo {
                        partition_id: (i + 1) as u32,
                        current_offset: last_offset(self.partitions@[i]),
                        stored_offset: match offset_of(
                            self.partitions@[i].offsets@,
                            consumer.spec_key(),
                        ) {
                            Some(offset) => offset,
                            None => 0,
                        },
                    },
                ),
                Err(e) => r == Err::<ConsumerOffsetInfo, IggyError>(e),
            },
    {
        let i = self.resolve_partition(consumer)?;
        let partition = &self.partitions[i];
        let len = partition.messages.len();
        let current_offset = if len == 0 {
            0
        } else {
            (len - 1) as u64
        };
        let stored_offset = match partition.get_offset(consumer.key()) {
            Some(offset) => offset,
            None => 0,
        };
        Ok(ConsumerOffsetInfo { partition_id: (i + 1) as u32, current_offset, stored_offset })
    }

    /// Takes back the last `count` messages of the partition at index `pi`,
    /// where they are the ones from `first_offset` on; else nothing changes.
    pub fn rollback_append(&mut self, pi: usize, first_offset: u64, count: u64)
        requires
            old(self).wf(),
            pi < old(self).partitions@.len(),
        ensures
            final(self).wf(),
            final(self).same_head(*old(self)),
            partition_changed(*old(self), *final(self), pi as int),
            final(self).next_partition == old(self).next_partition,
            final(self).partitions@[pi as int].id == old(self).partitions@[pi as int].id,
            final(self).partitions@[pi as int].offsets == old(self).partitions@[pi as int].offsets,
            final(self).partitions@[pi as int].messages@ == if old(
                self,
            ).partitions@[pi as int].messages@.len() == first_offset + count {
                old(self).partitions@[pi as int].messages@.take(first_offset as int)
            } else {
                old(self).partitions@[pi as int].messages@
            },
    {
        let len = self.partitions[pi].messages.len() as u64;
        if count <= len && len - count == first_offset {
            self.partitions[pi].truncate_to(first_offset);
        } else {
            self.partitions[pi].truncate_to(len);
            proof {
                let messages = old(self).partitions@[pi as int].messages@;
                assert(messages.take(len as int) =~= messages);
            }
        }
    }

    /// Puts back what was stored for the consumer on the partition at index
    /// `pi` before an offset was stored: the previous offset, or nothing.
    pub fn restore_offset(&mut self, pi: usize, consumer: Consumer, previous: Option<u64>)
        requires
            old(self).wf(),
            pi < old(self).partitions@.len(),
        ensures
            final(self).wf(),
            final(self).same_head(*old(self)),
            partition_changed(*old(self), *final(self), pi as int),
            final(self).next_partition == old(self).next_partition,
            final(self).partitions@[pi as int].id == old(self).partitions@[pi as int].id,
            final(self).partitions@[pi as int].messages == old(self).partitions@[pi as int].messages,
            offset_of(final(self).partitions@[pi as int].offsets@, consumer) == previous,
            forall|other: Consumer|
                other != consumer ==> offset_of(final(self).partitions@[pi as int].offsets@, other)
                    == offset_of(old(self).partitions@[pi as int].offsets@, other),
    {
        match previous {
            Some(offset) => {
                self.partitions[pi].store_offset(consumer, offset);
            },
            None => {
                self.partitions[pi].remove_offset(consumer);
            },
        }
    }

    /// Creates a consumer group.  The id is the one given, or one more than
    /// the largest id in use.  An id or a name that is in use is refused as
    /// `AlreadyExists`.
    pub fn create_consumer_group(&mut self, group_id: Option<u32>, name: &Vec<u8>) -> (r: Result<
        u32,
        IggyError,
    >)
        requires
            old(self).wf(),
        ensures
            final(self).wf(),
            final(self).same_head(*old(self)),
            created_group(*old(self), *final(self), group_id, name@, r),
    {
        if find_by_name(&self.groups, name.as_slice()).is_some() {
            return Err(IggyError::AlreadyExists);
        }
        let id = match group_id {
            Some(id) => {
                if find_by_id(&self.groups, id).is_some() {
                    return Err(IggyError::AlreadyExists);
                }
                id
            },
            None => match next_id(&self.groups) {
                Some(id) => id,
                None => { return Err(IggyError::ResourceBusy); },
            },
        };
        let group = ConsumerGroup::new(id, copy_bytes(name), self.partitions.len() as u32);
        let ghost before = self.groups@;
        self.groups.push(group);
        proof {
            let after = self.groups@;
            assert(after.drop_last() =~= before);
            assert forall|i: int, j: int| 0 <= i < j < after.len() implies (
            #[trigger] after[i]).spec_id() != (#[trigger] after[j]).spec_id() && after[i].spec_name()
                != after[j].spec_name() by {
                if j < before.len() {
                    assert(before[i].spec_id() != before[j].spec_id());
                } else {
                    assert(after[i] == before[i]);
                }
            }
        }
        Ok(id)
    }

    /// Deletes the consumer group that the identifier names.
    pub fn delete_consumer_group(&mut self, group_id: &Identifier) -> (r: Result<(), IggyError>)
        requires
            old(self).wf(),
        ensures
            final(self).wf(),
            final(self).same_head(*old(self)),
            match locate(old(self).groups@, group_id@) {
                Some(i) => r is Ok && final(self).groups@ == old(self).groups@.remove(i)
                    && final(self).same_head(*old(self)) && final(self).partitions == old(self).partitions && final(self).next_partition == old(self).next_partition,
                None => r == Err::<(), IggyError>(IggyError::NotFound) && *final(self) == *old(self),
            },
    {
        let i = match find(&self.groups, group_id) {
            Some(i) => i,
            None => { return Err(IggyError::NotFound); },
        };
        let ghost before = self.groups@;
        self.groups.remove(i);
        proof {
            lemma_removed_distinct(before, i as int);
        }
        Ok(())
    }

    /// Makes `member` a member of the consumer group that the identifier
    /// names.
    pub fn join_consumer_group(&mut self, group_id: &Identifier, member: u32) -> (r: Result<
        (),
        IggyError,
    >)
        requires
            old(self).wf(),
        ensures
            final(self).wf(),
            final(self).same_head(*old(self)),
            match locate(old(self).groups@, group_id@) {
                Some(i) => r is Ok && group_changed(*old(self), *final(self), i) && joined(
                    old(self).groups@[i],
                    final(self).groups@[i],
                    member,
                ),
                None => r == Err::<(), IggyError>(IggyError::NotFound) && *final(self) == *old(self),
            },
    {
        let i = match find(&self.groups, group_id) {
            Some(i) => i,
            None => { return Err(IggyError::NotFound); },
        };
        let ghost before = self.groups@;
        self.groups[i].join(member);
        proof {
            lemma_updated_distinct(before, self.groups@, i as int);
        }
        Ok(())
    }

    /// Ends the membership of `member` in the consumer group that the
    /// identifier names.  Where there is no such group, or `member` is no
    /// member of it, the result is `NotFound`.
    pub fn leave_consumer_group(&mut self, group_id: &Identifier, member: u32) -> (r: Result<
        (),
        IggyError,
    >)
        requires
            old(self).wf(),
        ensures
            final(self).wf(),
            final(self).same_head(*old(self)),
            match locate(old(self).groups@, group_id@) {
                Some(i) => if old(self).groups@[i].members@.contains(member) {
                    r is Ok && group_changed(*old(self), *final(self), i) && left(
                        old(self).groups@[i],
                        final(self).groups@[i],
                        member,
                    )
                } else {
                    r == Err::<(), IggyError>(IggyError::NotFound) && *final(self) == *old(self)
                },
                None => r == Err::<(), IggyError>(IggyError::NotFound) && *final(self) == *old(self),
            },
    {
        let i = match find(&self.groups, group_id) {
            Some(i) => i,
            None => { return Err(IggyError::NotFound); },
        };
        if self.groups[i].member_index(member).is_none() {
            return Err(IggyError::NotFound);
        }
        let ghost before = self.groups@;
        let left = self.groups[i].leave(member);
        proof {
            lemma_updated_distinct(before, self.groups@, i as int);
        }
        left
    }
}

/// What [`Topic::add_partitions`] does.
///
/// A count of 0, or one that would lead to more than `u32::MAX` partitions,
/// is refused as `InvalidConfiguration` and nothing changes.  Otherwise
/// `count` empty partitions follow the partitions that were there, and the
/// consumer groups learn the new number of partitions.
pub open spec fn added_partitions(before: Topic, after: Topic, count: u32, r: Result<(), IggyError>) -> bool {
    if count == 0 || before.partitions@.len() + count > u32::MAX {
        r == Err::<(), IggyError>(IggyError::InvalidConfiguration) && after == before
    } else {
        &&& r is Ok
        &&& after.same_head(before)
        &&& after.next_partition == before.next_partition
        &&& same_groups(before.groups@, after.groups@)
        &&& after.partitions@.len() == before.partitions@.len() + count
        &&& forall|i: int|
            0 <= i < before.partitions@.len() ==> after.partitions@[i] == before.partitions@[i]
        &&& forall|i: int|
            before.partitions@.len() <= i < after.partitions@.len() ==> (
            #[trigger] after.partitions@[i]).messages@.len() == 0
                && after.partitions@[i].offsets@.len() == 0
    }
}

/// What [`Topic::remove_partitions`] does.
///
/// A count of 0, or one above the number of partitions, is refused as
/// `InvalidConfiguration` and nothing changes.  Otherwise the last `count`
/// partitions are gone with their messages, the cursor of balanced
/// partitioning goes back to the first partition where it pointed at one of
/// them, and the consumer groups learn the new number of partitions.
pub open spec fn removed_partitions(before: Topic, after: Topic, count: u32, r: Result<(), IggyError>) -> bool {
    if count == 0 || count > before.partitions@.len() {
        r == Err::<(), IggyError>(IggyError::InvalidConfiguration) && after == before
    } else {
        &&& r is Ok
        &&& after.same_head(before)
        &&& same_groups(before.groups@, after.groups@)
        &&& after.partitions@ == before.partitions@.take(before.partitions@.len() - count)
        &&& after.next_partition == if before.next_partition < after.partitions@.len() {
            before.next_partition
        } else {
            0
        }
    }
}

/// The groups are the same but for the number of partitions they know.
pub open spec fn same_groups(before: Seq<ConsumerGroup>, after: Seq<ConsumerGroup>) -> bool {
    &&& after.len() == before.len()
    &&& forall|g: int|
        0 <= g < before.len() ==> (#[trigger] after[g]).id == before[g].id && after[g].name
            == before[g].name && after[g].members == before[g].members
}

/// Only the consumer group at index `i` differs between the two topics.
pub open spec fn group_changed(before: Topic, after: Topic, i: int) -> bool {
    &&& after.same_head(before)
    &&& after.partitions == before.partitions
    &&& after.next_partition == before.next_partition
    &&& after.groups@.len() == before.groups@.len()
    &&& forall|g: int|
        0 <= g < before.groups@.len() && g != i ==> after.groups@[g] == before.groups@[g]
}

/// Only the partition at index `i` differs between the two topics, cursor
/// aside.
pub open spec fn partition_changed(before: Topic, after: Topic, i: int) -> bool {
    &&& after.same_head(before)
    &&& after.groups == before.groups
    &&& after.partitions@.len() == before.partitions@.len()
    &&& forall|j: int|
        0 <= j < before.partitions@.len() && j != i ==> after.partitions@[j]
            == before.partitions@[j]
}

/// What [`Topic::append_messages`] does.
///
/// Where the partitioning selects no partition the result is `NotFound`,
/// where the partition cannot take the batch it is `ResourceBusy`, and in
/// both cases nothing changes.  Otherwise the batch is appended to the
/// selected partition, the cursor of balanced partitioning moves on, and the
/// result is the id of the partition and the offset of the first message of
/// the batch.
pub open spec fn appended_to_topic(
    before: Topic,
    after: Topic,
    partitioning: PartitioningView,
    batch: Seq<AppendableMessage>,
    now: u64,
    r: Result<(u32, u64), IggyError>,
) -> bool {
    match before.target(partitioning) {
        None => r == Err::<(u32, u64), IggyError>(IggyError::NotFound) && after == before,
        Some(i) => if before.partitions@[i].messages@.len() + batch.len() > u64::MAX {
            r == Err::<(u32, u64), IggyError>(IggyError::ResourceBusy) && after == before
        } else {
            &&& r == Ok::<(u32, u64), IggyError>(
                ((i + 1) as u32, before.partitions@[i].messages@.len() as u64),
            )
            &&& partition_changed(before, after, i)
            &&& appended(before.partitions@[i], after.partitions@[i], batch, now)
            &&& after.next_partition == before.cursor_after(partitioning)
        },
    }
}

/// Tells whether `after` is `before` with `offset` stored for `key` on the
/// partition at index `i`.
pub open spec fn stored_in_topic(before: Topic, after: Topic, i: int, key: Consumer, offset: u64) -> bool {
    &&& partition_changed(before, after, i)
    &&& after.next_partition == before.next_partition
    &&& after.partitions@[i].id == before.partitions@[i].id
    &&& after.partitions@[i].messages == before.partitions@[i].messages
    &&& offset_of(after.partitions@[i].offsets@, key) == Some(offset)
    &&& forall|other: Consumer|
        other != key ==> offset_of(after.partitions@[i].offsets@, other) == offset_of(
            before.partitions@[i].offsets@,
            other,
        )
}

/// What [`Topic::poll_messages`] does.
///
/// Where the reader has no partition to read, the result is the error of
/// [`Topic::polling_partition`] and nothing changes.  Otherwise the result
/// holds the messages of that partition from the starting offset on, at most
/// `count` of them and fewer where the partition is short.  With
/// `auto_commit`, and where a message was returned, the offset just after the
/// last returned message is stored for the reader; else nothing changes.
pub open spec fn polled(
    before: Topic,
    after: Topic,
    consumer: PollingConsumer,
    strategy: PollingStrategy,
    count: u32,
    auto_commit: bool,
    r: Result<PolledMessages, IggyError>,
) -> bool {
    match before.polling_partition(consumer) {
        Err(e) => r is Err && r->Err_0 == e && after == before,
        Ok(i) => {
            let partition = before.partitions@[i];
            let start = partition.start_offset(consumer.spec_key(), strategy, count);
            let n = partition.available(start, count);
            &&& r is Ok
            &&& r->Ok_0.partition_id == i + 1
            &&& r->Ok_0.current_offset == last_offset(partition)
            &&& r->Ok_0.messages@.len() == n
            &&& forall|k: int|
                0 <= k < n ==> (#[trigger] r->Ok_0.messages@[k])@ == partition.messages@[start + k]@
            &&& if auto_commit && n > 0 {
                stored_in_topic(before, after, i, consumer.spec_key(), (start + n) as u64)
            } else {
                after == before
            }
        },
    }
}

/// What [`Topic::create_consumer_group`] does.
///
/// An id or a name that is in use is refused as `AlreadyExists`; where no
/// id is given and none is left, the result is `ResourceBusy`; in both cases
/// nothing changes.  Otherwise a group without members is added after the
/// groups that were there, and the result is its id.
pub open spec fn created_group(
    before: Topic,
    after: Topic,
    group_id: Option<u32>,
    name: Seq<u8>,
    r: Result<u32, IggyError>,
) -> bool {
    if has_name(before.groups@, name) || (group_id is Some && has_id(
        before.groups@,
        group_id->Some_0,
    )) {
        r == Err::<u32, IggyError>(IggyError::AlreadyExists) && after == before
    } else if group_id is None && max_id(before.groups@) == u32::MAX {
        r == Err::<u32, IggyError>(IggyError::ResourceBusy) && after == before
    } else {
        let id = match group_id {
            Some(id) => id,
            None => (max_id(before.groups@) + 1) as u32,
        };
        &&& r == Ok::<u32, IggyError>(id)
        &&& after.same_head(before)
        &&& after.partitions == before.partitions
        &&& after.next_partition == before.next_partition
        &&& after.groups@.len() == before.groups@.len() + 1
        &&& after.groups@.drop_last() == before.groups@
        &&& after.groups@.last().id == id
        &&& after.groups@.last().name@ == name
        &&& after.groups@.last().partitions_count == before.partitions@.len()
        &&& after.groups@.last().members@.len() == 0
    }
}

} // verus!
