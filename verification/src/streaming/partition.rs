//! One partition of a topic: an append-only run of messages, numbered from
//! zero without gaps, and the offsets stored for its consumers.

use crate::consumer::Consumer;
use crate::messages::AppendableMessage;
use crate::messages::AppendableMessageView;
use crate::polling::PollingKind;
use crate::polling::PollingStrategy;
use crate::wire::copy_bytes;
use crate::wire::opt_bytes_view;
use vstd::prelude::*;

verus! {

/// A message as a partition holds it.
#[derive(Debug, PartialEq)]
pub struct Message {
    /// Position of the message in its partition.
    pub offset: u64,
    /// Time at which the broker took the message in.
    pub timestamp: u64,
    /// Id that the producer gave the message.
    pub id: u128,
    /// Headers in their encoded form, where the message has any.
    pub headers: Option<Vec<u8>>,
    /// The payload bytes.
    pub payload: Vec<u8>,
}

/// The mathematical value of a [`Message`].
pub struct MessageView {
    pub offset: u64,
    pub timestamp: u64,
    pub id: u128,
    pub headers: Option<Seq<u8>>,
    pub payload: Seq<u8>,
}

impl View for Message {
    type V = MessageView;

    open spec fn view(&self) -> MessageView {
        MessageView {
            offset: self.offset,
            timestamp: self.timestamp,
            id: self.id,
            headers: opt_bytes_view(self.headers),
            payload: self.payload@,
        }
    }
}

impl Clone for Message {
    fn clone(&self) -> (r: Self)
        ensures
            r@ == self@,
    {
        let headers = match &self.headers {
            Some(bytes) => Some(copy_bytes(bytes)),
            None => None,
        };
        Message {
            offset: self.offset,
            timestamp: self.timestamp,
            id: self.id,
            headers,
            payload: copy_bytes(&self.payload),
        }
    }
}

/// The message that a partition stores for an appended one: the same id,
/// headers and payload, with the offset and the time of arrival added.
pub open spec fn stored_form(message: AppendableMessageView, offset: u64, now: u64) -> MessageView {
    MessageView {
        offset,
        timestamp: now,
        id: message.id,
        headers: message.headers,
        payload: message.payload,
    }
}

/// The offset up to which a consumer has read a partition.
#[derive(Debug, Clone, Copy, PartialEq, Eq, Structural)]
pub struct StoredOffset {
    /// The consumer or consumer group.
    pub consumer: Consumer,
    /// The offset of the next message that the consumer has not read.
    pub offset: u64,
}

/// One partition of a topic.
#[derive(Debug)]
pub struct Partition {
    /// Id of the partition within its topic, counted from 1.
    pub id: u32,
    /// The messages; the message at index `i` has offset `i`.
    pub messages: Vec<Message>,
    /// The stored offsets, at most one for each consumer.
    pub offsets: Vec<StoredOffset>,
}

/// The index of the first message from `from` on whose timestamp is not
/// before `timestamp`, or the number of messages where there is none.
pub open spec fn first_not_before(messages: Seq<Message>, timestamp: u64, from: int) -> int
    decreases messages.len() - from,
{
    if from < 0 || from >= messages.len() {
        messages.len() as int
    } else if messages[from].timestamp >= timestamp {
        from
    } else {
        first_not_before(messages, timestamp, from + 1)
    }
}

/// Tells whether an offset is stored for the consumer.
pub open spec fn has_offset(offsets: Seq<StoredOffset>, consumer: Consumer) -> bool {
    exists|i: int| 0 <= i < offsets.len() && (#[trigger] offsets[i]).consumer == consumer
}

/// The offset stored for the consumer, if any.
pub open spec fn offset_of(offsets: Seq<StoredOffset>, consumer: Consumer) -> Option<u64> {
    if has_offset(offsets, consumer) {
        Some(
            offsets[choose|i: int|
                0 <= i < offsets.len() && (#[trigger] offsets[i]).consumer == consumer].offset,
        )
    } else {
        None
    }
}

/// No consumer has two stored offsets.
pub open spec fn distinct_consumers(offsets: Seq<StoredOffset>) -> bool {
    forall|i: int, j: int|
        0 <= i < j < offsets.len() ==> (#[trigger] offsets[i]).consumer != (
        #[trigger] offsets[j]).consumer
}

/// Where no consumer has two entries, the entry found for a consumer is the
/// one that [`offset_of`] speaks of.
pub proof fn lemma_offset_of(offsets: Seq<StoredOffset>, i: int)
    requires
        distinct_consumers(offsets),
        0 <= i < offsets.len(),
    ensures
        offset_of(offsets, offsets[i].consumer) == Some(offsets[i].offset),
{
    let consumer = offsets[i].consumer;
    let j = choose|j: int| 0 <= j < offsets.len() && (#[trigger] offsets[j]).consumer == consumer;
    if i < j {
        assert(offsets[i].consumer != offsets[j].consumer);
    }
    if j < i {
        assert(offsets[j].consumer != offsets[i].consumer);
    }
}

/// Tells whether `after` is `before` with the batch appended: the messages
/// that were there are untouched, those of the batch follow in their order,
/// each with the next offset and the time `now`, and nothing else changed.
pub open spec fn appended(
    before: Partition,
    after: Partition,
    batch: Seq<AppendableMessage>,
    now: u64,
) -> bool {
    &&& after.id == before.id
    &&& after.offsets == before.offsets
    &&& after.messages@.len() == before.messages@.len() + batch.len()
    &&& forall|i: int|
        0 <= i < before.messages@.len() ==> after.messages@[i] == before.messages@[i]
    &&& forall|j: int|
        0 <= j < batch.len() ==> (#[trigger] after.messages@[before.messages@.len() + j])@
            == stored_form(batch[j]@, (before.messages@.len() + j) as u64, now)
}

/// Appending keeps the order of arrival: the offsets of the appended
/// messages are those after the last offset of the partition, without a gap
/// and strictly increasing.
pub proof fn lemma_appended_offsets(
    before: Partition,
    after: Partition,
    batch: Seq<AppendableMessage>,
    now: u64,
)
    requires
        before.wf(),
        appended(before, after, batch, now),
        before.messages@.len() + batch.len() <= u64::MAX,
    ensures
        forall|j: int|
            0 <= j < batch.len() ==> (#[trigger] after.messages@[before.messages@.len() + j]).offset
                == before.messages@.len() + j,
        forall|i: int, j: int|
            0 <= i < j < after.messages@.len() ==> (#[trigger] after.messages@[i]).offset < (
            #[trigger] after.messages@[j]).offset,
{
    assert forall|j: int| 0 <= j < batch.len() implies (#[trigger] after.messages@[before.messages@.len()
        + j]).offset == before.messages@.len() + j by {
        assert(after.messages@[before.messages@.len() + j]@.offset == (before.messages@.len()
            + j) as u64);
    }
    assert forall|i: int| 0 <= i < after.messages@.len() implies (#[trigger] after.messages@[i]).offset
        == i by {
        if i < before.messages@.len() {
            assert(after.messages@[i] == before.messages@[i]);
        } else {
            let j = i - before.messages@.len();
            assert(after.messages@[before.messages@.len() + j].offset == before.messages@.len()
                + j);
        }
    }
}

impl Partition {
    /// The messages are numbered from zero without gaps, and no consumer
    /// has two stored offsets.
    pub open spec fn wf(self) -> bool {
        &&& self.messages@.len() <= u64::MAX
        &&& forall|i: int| 0 <= i < self.messages@.len() ==> (#[trigger] self.messages@[i]).offset == i
        &&& distinct_consumers(self.offsets@)
    }

    /// The offset at which reading starts under a polling strategy.
    ///
    /// An explicit offset is taken as it is; a timestamp selects the first
    /// message that is not older; `First` starts at zero; `Last` starts so
    /// that the last `count` messages are read; `Next` starts at the offset
    /// stored for the consumer, or at zero where none is stored.
    pub open spec fn start_offset(self, consumer: Consumer, strategy: PollingStrategy, count: u32) -> int {
        match strategy.kind {
            PollingKind::Offset => strategy.value as int,
            PollingKind::Timestamp => first_not_before(self.messages@, strategy.value, 0),
            PollingKind::First => 0,
            PollingKind::Last => if count <= self.messages@.len() {
                self.messages@.len() - count
            } else {
                0
            },
            PollingKind::Next => match offset_of(self.offsets@, consumer) {
                Some(offset) => offset as int,
                None => 0,
            },
        }
    }

    /// The number of messages that a read of at most `count` messages from
    /// `start` returns: fewer than `count` where the partition is short.
    pub open spec fn available(self, start: int, count: u32) -> int {
        if start >= self.messages@.len() {
            0
        } else if self.messages@.len() - start < count {
            self.messages@.len() - start
        } else {
            count as int
        }
    }

    /// Tells whether the partition is well-formed.
    pub fn is_valid(&self) -> (r: bool)
        ensures
            r == self.wf(),
    {
        let n = self.messages.len();
        let mut i: usize = 0;
        while i < n
            invariant
                i <= n,
                n == self.messages@.len(),
                forall|k: int| 0 <= k < i ==> (#[trigger] self.messages@[k]).offset == k,
            decreases n - i,
        {
            if self.messages[i].offset != i as u64 {
                proof {
                    assert(self.messages@[i as int].offset != i);
                }
                return false;
            }
            i += 1;
        }
        let m = self.offsets.len();
        let mut a: usize = 0;
        while a < m
            invariant
                a <= m,
                m == self.offsets@.len(),
                forall|x: int, y: int|
                    0 <= x < y < m && x < a ==> (#[trigger] self.offsets@[x]).consumer != (
                    #[trigger] self.offsets@[y]).consumer,
            decreases m - a,
        {
            let mut b: usize = a + 1;
            while b < m
                invariant
                    a < b <= m,
                    m == self.offsets@.len(),
                    forall|y: int|
                        a < y < b ==> self.offsets@[a as int].consumer != (
                        #[trigger] self.offsets@[y]).consumer,
                decreases m - b,
            {
                let first = self.offsets[a].consumer;
                let second = self.offsets[b].consumer;
                if first.kind == second.kind && first.id == second.id {
                    proof {
                        assert(self.offsets@[a as int].consumer == self.offsets@[b as int].consumer);
                    }
                    return false;
                }
                b += 1;
            }
            a += 1;
        }
        true
    }

    /// A new, empty partition.
    pub fn new(id: u32) -> (r: Partition)
        ensures
            r.wf(),
            r.id == id,
            r.messages@.len() == 0,
            r.offsets@.len() == 0,
    {
        Partition { id, messages: Vec::new(), offsets: Vec::new() }
    }

    /// The offset that the next appended message gets.
    pub fn next_offset(&self) -> (r: u64)
        requires
            self.wf(),
        ensures
            r == self.messages@.len(),
    {
        self.messages.len() as u64
    }

    /// Appends the batch, in its order, and returns the offset of its first
    /// message.  Each message gets the next free offset and the time `now`.
    pub fn append(&mut self, batch: &Vec<AppendableMessage>, now: u64) -> (first: u64)
        requires
            old(self).wf(),
            old(self).messages@.len() + batch@.len() <= u64::MAX,
        ensures
            final(self).wf(),
            first == old(self).messages@.len(),
            appended(*old(self), *final(self), batch@, now),
    {
        let first = self.messages.len() as u64;
        let ghost before = self.messages@;
        let mut j: usize = 0;
        while j < batch.len()
            invariant
                j <= batch@.len(),
                before.len() + batch@.len() <= u64::MAX,
                self.id == old(self).id,
                self.offsets == old(self).offsets,
                distinct_consumers(self.offsets@),
                before == old(self).messages@,
                self.messages@.len() == before.len() + j,
                forall|i: int| 0 <= i < before.len() ==> self.messages@[i] == before[i],
                forall|i: int|
                    0 <= i < self.messages@.len() ==> (#[trigger] self.messages@[i]).offset == i,
                forall|k: int|
                    0 <= k < j ==> (#[trigger] self.messages@[before.len() + k])@ == stored_form(
                        batch@[k]@,
                        (before.len() + k) as u64,
                        now,
                    ),
            decreases batch@.len() - j,
        {
            let source = &batch[j];
            let headers = match &source.headers {
                Some(bytes) => Some(copy_bytes(bytes)),
                None => None,
            };
            let message = Message {
                offset: self.messages.len() as u64,
                timestamp: now,
                id: source.id,
                headers,
                payload: copy_bytes(&source.payload),
            };
            let ghost grown = self.messages@;
            self.messages.push(message);
            proof {
                assert forall|k: int| 0 <= k < j + 1 implies (#[trigger] self.messages@[before.len()
                    + k])@ == stored_form(batch@[k]@, (before.len() + k) as u64, now) by {
                    if k < j {
                        assert(self.messages@[before.len() + k] == grown[before.len() + k]);
                    }
                }
            }
            j += 1;
        }
        first
    }

    /// The offset at which reading starts under a polling strategy.
    pub fn resolve_start(&self, consumer: Consumer, strategy: PollingStrategy, count: u32) -> (r: u64)
        requires
            self.wf(),
        ensures
            r == self.start_offset(consumer, strategy, count),
    {
        match strategy.kind {
            PollingKind::Offset => strategy.value,
            PollingKind::Timestamp => {
                let mut i: usize = 0;
                while i < self.messages.len()
                    invariant
                        i <= self.messages@.len(),
                        self.messages@.len() <= u64::MAX,
                        strategy.kind == PollingKind::Timestamp,
                        first_not_before(self.messages@, strategy.value, 0) == first_not_before(
                            self.messages@,
                            strategy.value,
                            i as int,
                        ),
                    decreases self.messages@.len() - i,
                {
                    proof {
                        reveal_with_fuel(first_not_before, 2);
                    }
                    if self.messages[i].timestamp >= strategy.value {
                        return i as u64;
                    }
                    i += 1;
                }
                i as u64
            },
            PollingKind::First => 0,
            PollingKind::Last => {
                let len = self.messages.len();
                if count as usize <= len {
                    (len - count as usize) as u64
                } else {
                    0
                }
            },
            PollingKind::Next => match self.get_offset(consumer) {
                Some(offset) => offset,
                None => 0,
            },
        }
    }

    /// Reads up to `count` messages, starting at the offset `start`.
    pub fn poll(&self, start: u64, count: u32) -> (r: Vec<Message>)
        requires
            self.wf(),
        ensures
            r@.len() == self.available(start as int, count),
            forall|i: int| 0 <= i < r@.len() ==> (#[trigger] r@[i])@ == self.messages@[start + i]@,
    {
        let mut out: Vec<Message> = Vec::new();
        let len = self.messages.len();
        if start >= len as u64 {
            return out;
        }
        let from = start as usize;
        let n = if len - from < count as usize {
            len - from
        } else {
            count as usize
        };
        let mut i: usize = 0;
        while i < n
            invariant
                i <= n,
                from + n <= self.messages@.len(),
                len == self.messages@.len(),
                out@.len() == i,
                forall|k: int| 0 <= k < i ==> (#[trigger] out@[k])@ == self.messages@[from + k]@,
            decreases n - i,
        {
            out.push(self.messages[from + i].clone());
            i += 1;
        }
        out
    }

    /// The offset stored for the consumer, if any.
    pub fn get_offset(&self, consumer: Consumer) -> (r: Option<u64>)
        requires
            self.wf(),
        ensures
            r == offset_of(self.offsets@, consumer),
    {
        let mut i: usize = 0;
        while i < self.offsets.len()
            invariant
                i <= self.offsets@.len(),
                distinct_consumers(self.offsets@),
                forall|k: int| 0 <= k < i ==> (#[trigger] self.offsets@[k]).consumer != consumer,
            decreases self.offsets@.len() - i,
        {
            let entry = self.offsets[i];
            if entry.consumer.kind == consumer.kind && entry.consumer.id == consumer.id {
                proof {
                    lemma_offset_of(self.offsets@, i as int);
                }
                return Some(entry.offset);
            }
            i += 1;
        }
        None
    }

    /// Stores `offset` for the consumer, in place of an offset stored
    /// before.
    pub fn store_offset(&mut self, consumer: Consumer, offset: u64)
        requires
            old(self).wf(),
        ensures
            final(self).wf(),
            final(self).id == old(self).id,
            final(self).messages == old(self).messages,
            offset_of(final(self).offsets@, consumer) == Some(offset),
            forall|other: Consumer|
                other != consumer ==> offset_of(final(self).offsets@, other) == offset_of(
                    old(self).offsets@,
                    other,
                ),
    {
        let ghost before = self.offsets@;
        let entry = StoredOffset { consumer, offset };
        let mut i: usize = 0;
        while i < self.offsets.len()
            invariant
                i <= self.offsets@.len(),
                self.offsets@ == before,
                entry == (StoredOffset { consumer, offset }),
                self.messages@.len() <= u64::MAX,
                forall|k: int|
                    0 <= k < self.messages@.len() ==> (#[trigger] self.messages@[k]).offset == k,
                self.id == old(self).id,
                self.messages == old(self).messages,
                before == old(self).offsets@,
                distinct_consumers(before),
                forall|k: int| 0 <= k < i ==> (#[trigger] before[k]).consumer != consumer,
            decreases self.offsets@.len() - i,
        {
            let found = self.offsets[i];
            if found.consumer.kind == consumer.kind && found.consumer.id == consumer.id {
                self.offsets[i] = entry;
                proof {
                    let after = self.offsets@;
                    assert(after == before.update(i as int, entry));
                    assert(after[i as int] == entry);
                    assert forall|a: int, b: int| 0 <= a < b < after.len() implies (
                    #[trigger] after[a]).consumer != (#[trigger] after[b]).consumer by {
                        assert(before[a].consumer != before[b].consumer);
                    }
                    lemma_offset_of(after, i as int);
                    assert forall|other: Consumer| other != consumer implies offset_of(after, other)
                        == offset_of(before, other) by {
                        lemma_same_offsets(before, after, other, i as int);
                    }
                }
                return ;
            }
            i += 1;
        }
        self.offsets.push(entry);
        proof {
            let after = self.offsets@;
            let last = before.len() as int;
            assert(after[last] == entry);
            assert forall|a: int, b: int| 0 <= a < b < after.len() implies (
            #[trigger] after[a]).consumer != (#[trigger] after[b]).consumer by {
                if b < last {
                    assert(before[a].consumer != before[b].consumer);
                } else {
                    assert(after[a] == before[a]);
                }
            }
            lemma_offset_of(after, last);
            assert forall|other: Consumer| other != consumer implies offset_of(after, other)
                == offset_of(before, other) by {
                lemma_pushed_offsets(before, entry, other);
            }
        }
    }

    /// Drops the messages from the offset `keep` on.
    pub fn truncate_to(&mut self, keep: u64)
        requires
            old(self).wf(),
            keep <= old(self).messages@.len(),
        ensures
            final(self).wf(),
            final(self).id == old(self).id,
            final(self).offsets == old(self).offsets,
            final(self).messages@ == old(self).messages@.take(keep as int),
    {
        self.messages.truncate(keep as usize);
        proof {
            assert(self.messages@ =~= old(self).messages@.take(keep as int));
        }
    }

    /// Forgets the offset stored for the consumer, if there is one.
    pub fn remove_offset(&mut self, consumer: Consumer)
        requires
            old(self).wf(),
        ensures
            final(self).wf(),
            final(self).id == old(self).id,
            final(self).messages == old(self).messages,
            offset_of(final(self).offsets@, consumer) is None,
            forall|other: Consumer|
                other != consumer ==> offset_of(final(self).offsets@, other) == offset_of(
                    old(self).offsets@,
                    other,
                ),
    {
        let ghost before = self.offsets@;
        let mut i: usize = 0;
        while i < self.offsets.len()
            invariant
                i <= self.offsets@.len(),
                self.offsets@ == before,
                self.messages@.len() <= u64::MAX,
                forall|k: int|
                    0 <= k < self.messages@.len() ==> (#[trigger] self.messages@[k]).offset == k,
                self.id == old(self).id,
                self.messages == old(self).messages,
                before == old(self).offsets@,
                distinct_consumers(before),
                forall|k: int| 0 <= k < i ==> (#[trigger] before[k]).consumer != consumer,
            decreases self.offsets@.len() - i,
        {
            let found = self.offsets[i];
            if found.consumer.kind == consumer.kind && found.consumer.id == consumer.id {
                self.offsets.remove(i);
                proof {
                    let after = self.offsets@;
                    assert forall|a: int| 0 <= a < after.len() implies (
                    #[trigger] after[a]).consumer != consumer by {
                        let x = if a < i { a } else { a + 1 };
                        assert(after[a] == before[x]);
                        if x < i {
                            assert(before[x].consumer != before[i as int].consumer);
                        } else {
                            assert(before[i as int].consumer != before[x].consumer);
                        }
                    }
                    assert forall|a: int, b: int| 0 <= a < b < after.len() implies (
                    #[trigger] after[a]).consumer != (#[trigger] after[b]).consumer by {
                        let x = if a < i { a } else { a + 1 };
                        let y = if b < i { b } else { b + 1 };
                        assert(after[a] == before[x]);
                        assert(after[b] == before[y]);
                        assert(before[x].consumer != before[y].consumer);
                    }
                    assert forall|other: Consumer| other != consumer implies offset_of(after, other)
                        == offset_of(before, other) by {
                        if has_offset(before, other) {
                            let j = choose|j: int|
                                0 <= j < before.len() && (#[trigger] before[j]).consumer == other;
                            let a = if j < i { j } else { j - 1 };
                            assert(after[a] == before[j]);
                            lemma_offset_of(before, j);
                            lemma_offset_of(after, a);
                        } else if has_offset(after, other) {
                            let a = choose|a: int|
                                0 <= a < after.len() && (#[trigger] after[a]).consumer == other;
                            let x = if a < i { a } else { a + 1 };
                            assert(before[x].consumer == other);
                        }
                    }
                }
                return ;
            }
            i += 1;
        }
    }

    /// Drops all messages and stored offsets.
    pub fn purge(&mut self)
        requires
            old(self).wf(),
        ensures
            final(self).wf(),
            final(self).id == old(self).id,
            final(self).messages@.len() == 0,
            final(self).offsets@.len() == 0,
    {
        self.messages = Vec::new();
        self.offsets = Vec::new();
    }
}

/// Replacing the entry of one consumer leaves what is stored for the others.
pub proof fn lemma_same_offsets(
    before: Seq<StoredOffset>,
    after: Seq<StoredOffset>,
    other: Consumer,
    i: int,
)
    requires
        distinct_consumers(before),
        distinct_consumers(after),
        0 <= i < before.len(),
        after == before.update(i, after[i]),
        after[i].consumer == before[i].consumer,
        other != before[i].consumer,
    ensures
        offset_of(after, other) == offset_of(before, other),
{
    if has_offset(before, other) {
        let j = choose|j: int| 0 <= j < before.len() && (#[trigger] before[j]).consumer == other;
        assert(after[j] == before[j]);
        lemma_offset_of(before, j);
        lemma_offset_of(after, j);
    } else if has_offset(after, other) {
        let j = choose|j: int| 0 <= j < after.len() && (#[trigger] after[j]).consumer == other;
        assert(before[j].consumer == other);
    }
}

/// Adding an entry for one consumer leaves what is stored for the others.
pub proof fn lemma_pushed_offsets(before: Seq<StoredOffset>, entry: StoredOffset, other: Consumer)
    requires
        distinct_consumers(before),
        distinct_consumers(before.push(entry)),
        other != entry.consumer,
    ensures
        offset_of(before.push(entry), other) == offset_of(before, other),
{
    let after = before.push(entry);
    if has_offset(before, other) {
        let j = choose|j: int| 0 <= j < before.len() && (#[trigger] before[j]).consumer == other;
        assert(after[j] == before[j]);
        lemma_offset_of(before, j);
        lemma_offset_of(after, j);
    } else if has_offset(after, other) {
        let j = choose|j: int| 0 <= j < after.len() && (#[trigger] after[j]).consumer == other;
        assert(before[j].consumer == other);
    }
}

} // verus!
