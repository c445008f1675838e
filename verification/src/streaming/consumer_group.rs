//! Consumer groups: a set of members that share the partitions of a topic.
//!
//! The partitions, taken in ascending order, are dealt out in contiguous
//! ranges to the members, taken in ascending order of their ids.  The ranges
//! are as even as possible; the members that come first get the longer ones.

use crate::error::IggyError;
use crate::streaming::registry::Resource;
use vstd::arithmetic::div_mod::lemma_fundamental_div_mod;
use vstd::prelude::*;

verus! {

/// The number of partitions that the member at `index` holds, among
/// `members` members that share `partitions` partitions.
pub open spec fn share(partitions: nat, members: nat, index: nat) -> nat
    recommends
        members > 0,
        index < members,
{
    partitions / members + if index < partitions % members {
        1nat
    } else {
        0nat
    }
}

/// The first partition of the member at `index`: the number of partitions
/// that the members before it hold.
pub open spec fn first_of(partitions: nat, members: nat, index: nat) -> nat
    recommends
        members > 0,
        index <= members,
{
    index * (partitions / members) + if index < partitions % members {
        index
    } else {
        partitions % members
    }
}

/// The partitions that the member at `index` holds, in ascending order.
pub open spec fn range_of(partitions: nat, members: nat, index: nat) -> Seq<u32>
    recommends
        members > 0,
        index < members,
{
    Seq::new(
        share(partitions, members, index),
        |k: int| (first_of(partitions, members, index) + k) as u32,
    )
}

/// The ids are in strictly ascending order, so none occurs twice.
pub open spec fn ascending(ids: Seq<u32>) -> bool {
    forall|i: int, j: int| 0 <= i < j < ids.len() ==> ids[i] < ids[j]
}

/// The range of a member starts where the range of the member before it
/// ends; the first range starts at partition 0 and the last one ends at the
/// last partition.
pub proof fn lemma_ranges_adjoin(partitions: nat, members: nat, index: nat)
    requires
        members > 0,
        index < members,
    ensures
        first_of(partitions, members, 0) == 0,
        first_of(partitions, members, index + 1) == first_of(partitions, members, index) + share(
            partitions,
            members,
            index,
        ),
        first_of(partitions, members, members) == partitions,
        first_of(partitions, members, index) + share(partitions, members, index) <= partitions,
{
    let q = partitions / members;
    let r = partitions % members;
    assert((index + 1) * q == index * q + q) by (nonlinear_arith);
    assert(0 * q == 0) by (nonlinear_arith);
    lemma_fundamental_div_mod(partitions as int, members as int);
    assert(members * q == q * members) by (nonlinear_arith);
    assert((index + 1) * q <= members * q) by (nonlinear_arith)
        requires
            index + 1 <= members,
            q >= 0,
    ;
}

/// The ranges of two members do not overlap: the member that comes first
/// holds the lower partitions.
pub proof fn lemma_ranges_ordered(partitions: nat, members: nat, i: nat, j: nat)
    requires
        members > 0,
        i < j,
        j < members,
    ensures
        first_of(partitions, members, i) + share(partitions, members, i) <= first_of(
            partitions,
            members,
            j,
        ),
    decreases j - i,
{
    lemma_ranges_adjoin(partitions, members, i);
    if i + 1 < j {
        lemma_ranges_ordered(partitions, members, i + 1, j);
        lemma_ranges_adjoin(partitions, members, i + 1);
    }
}

/// Every partition below the start of the range of member `bound` lies in
/// the range of a member before it.
pub proof fn lemma_partition_has_owner(partitions: nat, members: nat, partition: nat, bound: nat) -> (owner:
    nat)
    requires
        members > 0,
        bound <= members,
        partition < first_of(partitions, members, bound),
    ensures
        owner < bound,
        first_of(partitions, members, owner) <= partition < first_of(partitions, members, owner)
            + share(partitions, members, owner),
    decreases bound,
{
    if bound == 0 {
        assert(0 * (partitions / members) == 0) by (nonlinear_arith);
        0
    } else {
        let last = (bound - 1) as nat;
        lemma_ranges_adjoin(partitions, members, last);
        if first_of(partitions, members, last) <= partition {
            last
        } else {
            lemma_partition_has_owner(partitions, members, partition, last)
        }
    }
}

/// Tells whether `partition` lies in the range of the member at `index`.
pub open spec fn holds(partitions: nat, members: nat, index: nat, partition: nat) -> bool {
    first_of(partitions, members, index) <= partition < first_of(partitions, members, index)
        + share(partitions, members, index)
}

/// Tells whether some member holds `partition`.
pub open spec fn has_owner(partitions: nat, members: nat, partition: nat) -> bool {
    exists|owner: nat| owner < members && #[trigger] holds(partitions, members, owner, partition)
}

/// The assignment of a group with at least one member is a partition of
/// the partitions `0..partitions`: every partition lies in the range of
/// exactly one member, no range reaches beyond the last partition, and the
/// sizes of two ranges differ by at most one.
pub proof fn lemma_assignment_is_partition(partitions: nat, members: nat)
    requires
        members > 0,
    ensures
        forall|partition: nat|
            partition < partitions ==> #[trigger] has_owner(partitions, members, partition),
        forall|i: nat, j: nat, partition: nat|
            i < members && j < members && #[trigger] holds(partitions, members, i, partition)
                && #[trigger] holds(partitions, members, j, partition) ==> i == j,
        forall|i: nat, partition: nat|
            i < members && #[trigger] holds(partitions, members, i, partition) ==> partition
                < partitions,
        forall|i: nat, j: nat|
            i < members && j < members ==> #[trigger] share(partitions, members, i) <= #[trigger] share(
                partitions,
                members,
                j,
            ) + 1,
{
    assert forall|partition: nat| partition < partitions implies #[trigger] has_owner(
        partitions,
        members,
        partition,
    ) by {
        lemma_ranges_adjoin(partitions, members, 0);
        let owner = lemma_partition_has_owner(partitions, members, partition, members);
        assert(holds(partitions, members, owner, partition));
    }
    assert forall|i: nat, j: nat, partition: nat|
        i < members && j < members && #[trigger] holds(partitions, members, i, partition)
            && #[trigger] holds(partitions, members, j, partition) implies i == j by {
        if i < j {
            lemma_ranges_ordered(partitions, members, i, j);
        }
        if j < i {
            lemma_ranges_ordered(partitions, members, j, i);
        }
    }
    assert forall|i: nat, partition: nat|
        i < members && #[trigger] holds(partitions, members, i, partition) implies partition
        < partitions by {
        lemma_ranges_adjoin(partitions, members, i);
    }
}

/// The member at `index` holds a partition exactly where the partition is
/// among the partitions of its range.
pub proof fn lemma_range_of_holds(partitions: nat, members: nat, index: nat, partition: nat)
    requires
        members > 0,
        index < members,
        partitions <= u32::MAX,
    ensures
        holds(partitions, members, index, partition) <==> partition <= u32::MAX && range_of(
            partitions,
            members,
            index,
        ).contains(partition as u32),
{
    lemma_ranges_adjoin(partitions, members, index);
    let first = first_of(partitions, members, index);
    let range = range_of(partitions, members, index);
    if holds(partitions, members, index, partition) {
        assert(range[partition - first] == partition as u32);
    }
    if partition <= u32::MAX && range.contains(partition as u32) {
        let k = choose|k: int| 0 <= k < range.len() && range[k] == partition as u32;
        assert(range[k] == (first + k) as u32);
    }
}

/// A consumer group of a topic.
#[derive(Debug)]
pub struct ConsumerGroup {
    /// Id of the group within its topic.
    pub id: u32,
    /// Name of the group, unique within its topic.
    pub name: Vec<u8>,
    /// The number of partitions of the topic.
    pub partitions_count: u32,
    /// The ids of the members, in ascending order.
    pub members: Vec<u32>,
}

impl Resource for ConsumerGroup {
    open spec fn spec_id(&self) -> u32 {
        self.id
    }

    open spec fn spec_name(&self) -> Seq<u8> {
        self.name@
    }

    fn id(&self) -> (r: u32) {
        self.id
    }

    fn name(&self) -> (r: &Vec<u8>) {
        &self.name
    }
}

/// Tells whether `after` is `before` with `member` among its members.
pub open spec fn joined(before: ConsumerGroup, after: ConsumerGroup, member: u32) -> bool {
    &&& after.id == before.id
    &&& after.name == before.name
    &&& after.partitions_count == before.partitions_count
    &&& forall|id: u32|
        after.members@.contains(id) <==> (before.members@.contains(id) || id == member)
    &&& before.members@.contains(member) ==> after.members == before.members
    &&& !before.members@.contains(member) ==> after.members@.len() == before.members@.len() + 1
}

/// Tells whether `after` is `before` without `member` among its members.
pub open spec fn left(before: ConsumerGroup, after: ConsumerGroup, member: u32) -> bool {
    &&& after.id == before.id
    &&& after.name == before.name
    &&& after.partitions_count == before.partitions_count
    &&& before.members@.contains(member)
    &&& after.members@.len() + 1 == before.members@.len()
    &&& forall|id: u32|
        after.members@.contains(id) <==> (before.members@.contains(id) && id != member)
}

/// In an ascending sequence an id is found at one index only.
pub proof fn lemma_member_position(members: Seq<u32>, i: int)
    requires
        ascending(members),
        0 <= i < members.len(),
    ensures
        members.contains(members[i]),
        members.index_of(members[i]) == i,
{
    let j = members.index_of(members[i]);
    if i < j {
        assert(members[i] < members[j]);
    }
    if j < i {
        assert(members[j] < members[i]);
    }
}

impl ConsumerGroup {
    /// The member ids are in strictly ascending order.
    pub open spec fn wf(self) -> bool {
        ascending(self.members@)
    }

    /// The partitions assigned to the member at `index`.
    pub open spec fn assigned(self, index: int) -> Seq<u32>
        recommends
            0 <= index < self.members@.len(),
    {
        range_of(self.partitions_count as nat, self.members@.len(), index as nat)
    }

    /// Tells whether the partition is assigned to one of the members.
    pub open spec fn covers(self, partition: u32) -> bool {
        exists|i: int|
            0 <= i < self.members@.len() && #[trigger] self.assigned(i).contains(partition)
    }

    /// Whatever joins and leaves have led to a group with at least one
    /// member, its assignment is a partition of the partitions of the topic:
    /// every partition is assigned to exactly one member, nothing else is
    /// assigned, and the numbers of partitions of two members differ by at
    /// most one.
    pub proof fn lemma_assignment(self)
        requires
            self.wf(),
            self.members@.len() > 0,
        ensures
            forall|partition: u32|
                partition < self.partitions_count ==> #[trigger] self.covers(partition),
            forall|i: int, j: int, partition: u32|
                0 <= i < self.members@.len() && 0 <= j < self.members@.len() && #[trigger] self.assigned(
                    i,
                ).contains(partition) && #[trigger] self.assigned(j).contains(partition) ==> i == j,
            forall|i: int, partition: u32|
                0 <= i < self.members@.len() && #[trigger] self.assigned(i).contains(partition)
                    ==> partition < self.partitions_count,
            forall|i: int, j: int|
                0 <= i < self.members@.len() && 0 <= j < self.members@.len() ==> (
                #[trigger] self.assigned(i)).len() <= (#[trigger] self.assigned(j)).len() + 1,
    {
        let p = self.partitions_count as nat;
        let m = self.members@.len();
        lemma_assignment_is_partition(p, m);
        assert forall|partition: u32|
            partition < self.partitions_count implies #[trigger] self.covers(partition) by {
            assert(has_owner(p, m, partition as nat));
            let owner = choose|owner: nat|
                owner < m && #[trigger] holds(p, m, owner, partition as nat);
            lemma_range_of_holds(p, m, owner, partition as nat);
            assert(self.assigned(owner as int).contains(partition));
        }
        assert forall|i: int, j: int, partition: u32|
            0 <= i < self.members@.len() && 0 <= j < self.members@.len() && #[trigger] self.assigned(
                i,
            ).contains(partition) && #[trigger] self.assigned(j).contains(partition) implies i
            == j by {
            lemma_range_of_holds(p, m, i as nat, partition as nat);
            lemma_range_of_holds(p, m, j as nat, partition as nat);
            assert(holds(p, m, i as nat, partition as nat));
            assert(holds(p, m, j as nat, partition as nat));
        }
        assert forall|i: int, partition: u32|
            0 <= i < self.members@.len() && #[trigger] self.assigned(i).contains(
                partition,
            ) implies partition < self.partitions_count by {
            lemma_range_of_holds(p, m, i as nat, partition as nat);
            assert(holds(p, m, i as nat, partition as nat));
        }
        assert forall|i: int, j: int|
            0 <= i < self.members@.len() && 0 <= j < self.members@.len() implies (
        #[trigger] self.assigned(i)).len() <= (#[trigger] self.assigned(j)).len() + 1 by {
            assert(share(p, m, i as nat) <= share(p, m, j as nat) + 1);
        }
    }

    /// Tells whether the group is well-formed.
    pub fn is_valid(&self) -> (r: bool)
        ensures
            r == self.wf(),
    {
        let n = self.members.len();
        if n == 0 {
            return true;
        }
        let mut i: usize = 1;
        while i < n
            invariant
                1 <= i <= n,
                n == self.members@.len(),
                forall|a: int, b: int| 0 <= a < b < i ==> self.members@[a] < self.members@[b],
            decreases n - i,
        {
            if self.members[i - 1] >= self.members[i] {
                return false;
            }
            proof {
                assert forall|a: int, b: int| 0 <= a < b < i + 1 implies self.members@[a]
                    < self.members@[b] by {
                    if b == i && a < i - 1 {
                        assert(self.members@[a] < self.members@[i - 1]);
                    }
                }
            }
            i += 1;
        }
        true
    }

    /// A new group without members.
    pub fn new(id: u32, name: Vec<u8>, partitions_count: u32) -> (r: ConsumerGroup)
        ensures
            r.wf(),
            r.id == id,
            r.name == name,
            r.partitions_count == partitions_count,
            r.members@.len() == 0,
    {
        ConsumerGroup { id, name, partitions_count, members: Vec::new() }
    }

    /// The position of a member among the members, if it is one.
    pub fn member_index(&self, member: u32) -> (r: Option<usize>)
        requires
            self.wf(),
        ensures
            match r {
                Some(i) => i < self.members@.len() && self.members@[i as int] == member
                    && self.members@.contains(member) && self.members@.index_of(member) == i,
                None => !self.members@.contains(member),
            },
    {
        let mut i: usize = 0;
        while i < self.members.len()
            invariant
                i <= self.members@.len(),
                ascending(self.members@),
                forall|k: int| 0 <= k < i ==> self.members@[k] != member,
            decreases self.members@.len() - i,
        {
            if self.members[i] == member {
                proof {
                    lemma_member_position(self.members@, i as int);
                }
                return Some(i);
            }
            i += 1;
        }
        None
    }

    /// Makes `member` a member of the group.  Joining twice changes
    /// nothing.  The partitions are dealt out anew among the members.
    pub fn join(&mut self, member: u32)
        requires
            old(self).wf(),
        ensures
            final(self).wf(),
            joined(*old(self), *final(self), member),
    {
        let ghost before = self.members@;
        let mut i: usize = 0;
        while i < self.members.len() && self.members[i] < member
            invariant
                i <= self.members@.len(),
                self.members@ == before,
                ascending(before),
                forall|k: int| 0 <= k < i ==> before[k] < member,
            decreases self.members@.len() - i,
        {
            i += 1;
        }
        if i < self.members.len() && self.members[i] == member {
            proof {
                assert(before.contains(member));
                assert forall|id: u32| before.contains(id) <==> (before.contains(id) || id
                    == member) by {}
            }
            return ;
        }
        proof {
            assert forall|k: int| 0 <= k < before.len() implies before[k] != member by {
                if k >= i {
                    assert(before[i as int] <= before[k]);
                }
            }
        }
        self.members.insert(i, member);
        proof {
            let after = self.members@;
            assert(after == before.insert(i as int, member));
            assert forall|a: int, b: int| 0 <= a < b < after.len() implies after[a] < after[b] by {
                if b < i {
                } else if b == i {
                } else if a < i {
                    assert(after[b] == before[b - 1]);
                    if b - 1 > i {
                        assert(before[i as int] < before[b - 1]);
                    }
                } else if a == i {
                    assert(after[b] == before[b - 1]);
                    if b - 1 > i {
                        assert(before[i as int] < before[b - 1]);
                    }
                } else {
                    assert(after[a] == before[a - 1]);
                    assert(after[b] == before[b - 1]);
                }
            }
            assert forall|id: u32| after.contains(id) <==> (before.contains(id) || id
                == member) by {
                if after.contains(id) {
                    let k = choose|k: int| 0 <= k < after.len() && after[k] == id;
                    if k < i {
                        assert(before[k] == id);
                    } else if k > i {
                        assert(before[k - 1] == id);
                    }
                }
                if before.contains(id) {
                    let k = choose|k: int| 0 <= k < before.len() && before[k] == id;
                    if k < i {
                        assert(after[k] == id);
                    } else {
                        assert(after[k + 1] == id);
                    }
                }
                if id == member {
                    assert(after[i as int] == id);
                }
            }
        }
    }

    /// Ends the membership of `member`.  The partitions are dealt out anew
    /// among the members that stay.
    pub fn leave(&mut self, member: u32) -> (r: Result<(), IggyError>)
        requires
            old(self).wf(),
        ensures
            final(self).wf(),
            match r {
                Ok(_) => left(*old(self), *final(self), member),
                Err(e) => e == IggyError::NotFound && !old(self).members@.contains(member)
                    && *final(self) == *old(self),
            },
    {
        let ghost before = self.members@;
        let i = match self.member_index(member) {
            Some(i) => i,
            None => { return Err(IggyError::NotFound); },
        };
        self.members.remove(i);
        proof {
            let after = self.members@;
            assert(after == before.remove(i as int));
            assert(before.contains(member));
            assert forall|a: int, b: int| 0 <= a < b < after.len() implies after[a] < after[b] by {
                let x = if a < i { a } else { a + 1 };
                let y = if b < i { b } else { b + 1 };
                assert(after[a] == before[x]);
                assert(after[b] == before[y]);
            }
            assert forall|id: u32| after.contains(id) <==> (before.contains(id) && id
                != member) by {
                if after.contains(id) {
                    let k = choose|k: int| 0 <= k < after.len() && after[k] == id;
                    let x = if k < i { k } else { k + 1 };
                    assert(before[x] == id);
                    if x < i {
                        assert(before[x] < before[i as int]);
                    } else {
                        assert(before[i as int] < before[x]);
                    }
                }
                if before.contains(id) && id != member {
                    let k = choose|k: int| 0 <= k < before.len() && before[k] == id;
                    if k < i {
                        assert(after[k] == id);
                    } else {
                        assert(after[k - 1] == id);
                    }
                }
            }
        }
        Ok(())
    }

    /// Tells whether the partition with the given index (counted from 0) is
    /// assigned to the member.
    pub open spec fn holds_partition(self, member: u32, partition: int) -> bool {
        self.members@.contains(member) && partition >= 0 && holds(
            self.partitions_count as nat,
            self.members@.len(),
            self.members@.index_of(member) as nat,
            partition as nat,
        )
    }

    /// The partitions assigned to the member, in ascending order of their
    /// indexes (counted from 0).
    pub open spec fn partitions_of(self, member: u32) -> Seq<u32>
        recommends
            self.members@.contains(member),
    {
        self.assigned(self.members@.index_of(member))
    }

    /// Records a new number of partitions of the topic.  The partitions are
    /// dealt out anew among the members.
    pub fn set_partitions_count(&mut self, partitions_count: u32)
        requires
            old(self).wf(),
        ensures
            final(self).wf(),
            final(self).id == old(self).id,
            final(self).name == old(self).name,
            final(self).members == old(self).members,
            final(self).partitions_count == partitions_count,
    {
        self.partitions_count = partitions_count;
    }

    /// The first and the number of the partitions of the member at `index`.
    fn range_at(&self, index: usize) -> (r: (u32, u32))
        requires
            self.wf(),
            index < self.members@.len(),
        ensures
            r.0 == first_of(self.partitions_count as nat, self.members@.len(), index as nat),
            r.1 == share(self.partitions_count as nat, self.members@.len(), index as nat),
            r.0 + r.1 <= self.partitions_count,
    {
        let count = self.members.len() as u64;
        let p = self.partitions_count as u64;
        let q = p / count;
        let r = p % count;
        let i = index as u64;
        proof {
            lemma_ranges_adjoin(p as nat, count as nat, i as nat);
            lemma_fundamental_div_mod(p as int, count as int);
            assert(i * q <= count * q) by (nonlinear_arith)
                requires
                    i <= count,
                    q >= 0,
            ;
            assert(count * q == q * count) by (nonlinear_arith);
        }
        let first = i * q + if i < r { i } else { r };
        let size = q + if i < r { 1 } else { 0 };
        (first as u32, size as u32)
    }

    /// The partitions assigned to `member`, in ascending order, or `None`
    /// where it is no member of the group.
    pub fn assigned_partitions(&self, member: u32) -> (r: Option<Vec<u32>>)
        requires
            self.wf(),
        ensures
            match r {
                Some(partitions) => self.members@.contains(member) && partitions@
                    == self.partitions_of(member),
                None => !self.members@.contains(member),
            },
    {
        let i = match self.member_index(member) {
            Some(i) => i,
            None => { return None; },
        };
        let (first, size) = self.range_at(i);
        let mut out: Vec<u32> = Vec::new();
        let mut k: u32 = 0;
        while k < size
            invariant
                k <= size,
                first + size <= u32::MAX,
                out@.len() == k,
                forall|j: int| 0 <= j < k ==> out@[j] == (first + j) as u32,
            decreases size - k,
        {
            out.push(first + k);
            k += 1;
        }
        proof {
            assert(out@ =~= self.assigned(i as int));
        }
        Some(out)
    }

    /// The first partition assigned to `member`, or `None` where it is no
    /// member or holds no partition.
    pub fn first_assigned(&self, member: u32) -> (r: Option<u32>)
        requires
            self.wf(),
        ensures
            match r {
                Some(partition) => self.members@.contains(member) && self.partitions_of(
                    member,
                ).len() > 0 && partition == self.partitions_of(member)[0]
                    && self.holds_partition(member, partition as int),
                None => !self.members@.contains(member) || self.partitions_of(member).len() == 0,
            },
    {
        let i = match self.member_index(member) {
            Some(i) => i,
            None => { return None; },
        };
        let (first, size) = self.range_at(i);
        if size == 0 {
            None
        } else {
            Some(first)
        }
    }

    /// Tells whether the partition with the given index (counted from 0) is
    /// assigned to `member`.
    pub fn is_assigned(&self, member: u32, partition: u32) -> (r: bool)
        requires
            self.wf(),
        ensures
            r == self.holds_partition(member, partition as int),
    {
        let i = match self.member_index(member) {
            Some(i) => i,
            None => { return false; },
        };
        let (first, size) = self.range_at(i);
        first <= partition && partition - first < size
    }
}

} // verus!
