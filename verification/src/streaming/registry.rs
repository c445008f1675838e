//! Lookup of resources that carry a numeric id and a name, both unique among
//! their siblings: streams, topics, consumer groups and users.

use crate::identifier::IdKind;
use crate::identifier::Identifier;
use crate::identifier::IdentifierView;
use crate::wire::le_u32;
use crate::wire::same_bytes;
use vstd::prelude::*;

verus! {

/// A resource with a numeric id and a name.
pub trait Resource {
    /// The numeric id.
    spec fn spec_id(&self) -> u32;

    /// The name.
    spec fn spec_name(&self) -> Seq<u8>;

    /// Returns the numeric id.
    fn id(&self) -> (r: u32)
        ensures
            r == self.spec_id(),
    ;

    /// Returns the name.
    fn name(&self) -> (r: &Vec<u8>)
        ensures
            r@ == self.spec_name(),
    ;
}

/// Tells whether one of the items has the id.
pub open spec fn has_id<T: Resource>(items: Seq<T>, id: u32) -> bool {
    exists|i: int| 0 <= i < items.len() && (#[trigger] items[i]).spec_id() == id
}

/// Tells whether one of the items has the name.
pub open spec fn has_name<T: Resource>(items: Seq<T>, name: Seq<u8>) -> bool {
    exists|i: int| 0 <= i < items.len() && (#[trigger] items[i]).spec_name() == name
}

/// No two items share an id or a name.
pub open spec fn distinct<T: Resource>(items: Seq<T>) -> bool {
    forall|i: int, j: int|
        0 <= i < j < items.len() ==> (#[trigger] items[i]).spec_id() != (
        #[trigger] items[j]).spec_id() && items[i].spec_name() != items[j].spec_name()
}

/// The index of the item with the id.
pub open spec fn index_of_id<T: Resource>(items: Seq<T>, id: u32) -> int {
    choose|i: int| 0 <= i < items.len() && (#[trigger] items[i]).spec_id() == id
}

/// The index of the item with the name.
pub open spec fn index_of_name<T: Resource>(items: Seq<T>, name: Seq<u8>) -> int {
    choose|i: int| 0 <= i < items.len() && (#[trigger] items[i]).spec_name() == name
}

/// The index of the item that an identifier names: a numeric identifier
/// names by id, any other by name.
pub open spec fn locate<T: Resource>(items: Seq<T>, identifier: IdentifierView) -> Option<int> {
    match identifier.kind {
        IdKind::Numeric => if has_id(items, le_u32(identifier.value)) {
            Some(index_of_id(items, le_u32(identifier.value)))
        } else {
            None
        },
        IdKind::String => if has_name(items, identifier.value) {
            Some(index_of_name(items, identifier.value))
        } else {
            None
        },
    }
}

/// The largest id among the items, or 0 where there are none.
pub open spec fn max_id<T: Resource>(items: Seq<T>) -> u32
    decreases items.len(),
{
    if items.len() == 0 {
        0
    } else if items.last().spec_id() > max_id(items.drop_last()) {
        items.last().spec_id()
    } else {
        max_id(items.drop_last())
    }
}

/// Where ids and names are unique, an item is found under its own id and
/// under its own name at its own index.
pub proof fn lemma_located<T: Resource>(items: Seq<T>, i: int)
    requires
        distinct(items),
        0 <= i < items.len(),
    ensures
        has_id(items, items[i].spec_id()),
        has_name(items, items[i].spec_name()),
        index_of_id(items, items[i].spec_id()) == i,
        index_of_name(items, items[i].spec_name()) == i,
{
    let j = index_of_id(items, items[i].spec_id());
    if i < j {
        assert(items[i].spec_id() != items[j].spec_id());
    }
    if j < i {
        assert(items[j].spec_id() != items[i].spec_id());
    }
    let k = index_of_name(items, items[i].spec_name());
    if i < k {
        assert(items[i].spec_name() != items[k].spec_name());
    }
    if k < i {
        assert(items[k].spec_name() != items[i].spec_name());
    }
}

/// What [`locate`] finds is an index of the sequence, and the item there
/// bears the id or the name that was asked for.
pub proof fn lemma_locate_in_range<T: Resource>(items: Seq<T>, identifier: IdentifierView)
    ensures
        match locate(items, identifier) {
            Some(i) => 0 <= i < items.len() && match identifier.kind {
                IdKind::Numeric => items[i].spec_id() == le_u32(identifier.value),
                IdKind::String => items[i].spec_name() == identifier.value,
            },
            None => true,
        },
{
}

/// No item has an id above the largest one.
pub proof fn lemma_max_id<T: Resource>(items: Seq<T>, i: int)
    requires
        0 <= i < items.len(),
    ensures
        items[i].spec_id() <= max_id(items),
    decreases items.len(),
{
    if i < items.len() - 1 {
        lemma_max_id(items.drop_last(), i);
    }
}

/// Finds the item with the id.
pub fn find_by_id<T: Resource>(items: &Vec<T>, id: u32) -> (r: Option<usize>)
    requires
        distinct(items@),
    ensures
        match r {
            Some(i) => i < items@.len() && items@[i as int].spec_id() == id && has_id(items@, id)
                && index_of_id(items@, id) == i,
            None => !has_id(items@, id),
        },
{
    let mut i: usize = 0;
    while i < items.len()
        invariant
            i <= items@.len(),
            distinct(items@),
            forall|k: int| 0 <= k < i ==> (#[trigger] items@[k]).spec_id() != id,
        decreases items@.len() - i,
    {
        if items[i].id() == id {
            proof {
                lemma_located(items@, i as int);
            }
            return Some(i);
        }
        i += 1;
    }
    None
}

/// Finds the item with the name.
pub fn find_by_name<T: Resource>(items: &Vec<T>, name: &[u8]) -> (r: Option<usize>)
    requires
        distinct(items@),
    ensures
        match r {
            Some(i) => i < items@.len() && items@[i as int].spec_name() == name@ && has_name(
                items@,
                name@,
            ) && index_of_name(items@, name@) == i,
            None => !has_name(items@, name@),
        },
{
    let mut i: usize = 0;
    while i < items.len()
        invariant
            i <= items@.len(),
            distinct(items@),
            forall|k: int| 0 <= k < i ==> (#[trigger] items@[k]).spec_name() != name@,
        decreases items@.len() - i,
    {
        if same_bytes(items[i].name().as_slice(), name) {
            proof {
                lemma_located(items@, i as int);
            }
            return Some(i);
        }
        i += 1;
    }
    None
}

/// Finds the item that the identifier names.
pub fn find<T: Resource>(items: &Vec<T>, identifier: &Identifier) -> (r: Option<usize>)
    requires
        distinct(items@),
    ensures
        match r {
            Some(i) => i < items@.len() && locate(items@, identifier@) == Some(i as int),
            None => locate(items@, identifier@) is None,
        },
{
    match identifier.get_u32_value() {
        Ok(id) => find_by_id(items, id),
        Err(_) => find_by_name(items, identifier.value()),
    }
}

/// The id for a new item where the caller names none: one more than the
/// largest id in use, or `None` where that does not fit 32 bits.
pub fn next_id<T: Resource>(items: &Vec<T>) -> (r: Option<u32>)
    ensures
        match r {
            Some(id) => id == max_id(items@) + 1 && !has_id(items@, id),
            None => max_id(items@) == u32::MAX,
        },
{
    let mut largest: u32 = 0;
    let mut i: usize = 0;
    while i < items.len()
        invariant
            i <= items@.len(),
            largest == max_id(items@.take(i as int)),
        decreases items@.len() - i,
    {
        let id = items[i].id();
        proof {
            assert(items@.take(i + 1).drop_last() =~= items@.take(i as int));
        }
        if id > largest {
            largest = id;
        }
        i += 1;
    }
    proof {
        assert(items@.take(i as int) =~= items@);
    }
    if largest == u32::MAX {
        None
    } else {
        proof {
            assert forall|k: int| 0 <= k < items@.len() implies (#[trigger] items@[k]).spec_id()
                != largest + 1 by {
                lemma_max_id(items@, k);
            }
        }
        Some(largest + 1)
    }
}

/// Adding an item whose id and name are not in use keeps ids and names
/// unique.
pub proof fn lemma_pushed_distinct<T: Resource>(items: Seq<T>, item: T)
    requires
        distinct(items),
        !has_id(items, item.spec_id()),
        !has_name(items, item.spec_name()),
    ensures
        distinct(items.push(item)),
{
    let after = items.push(item);
    assert forall|i: int, j: int| 0 <= i < j < after.len() implies (#[trigger] after[i]).spec_id()
        != (#[trigger] after[j]).spec_id() && after[i].spec_name() != after[j].spec_name() by {
        if j < items.len() {
            assert(items[i].spec_id() != items[j].spec_id());
        } else {
            assert(after[i] == items[i]);
        }
    }
}

/// Replacing an item by one with the same id, whose name no other item
/// bears, keeps ids and names unique.
pub proof fn lemma_renamed_distinct<T: Resource>(before: Seq<T>, after: Seq<T>, i: int)
    requires
        distinct(before),
        0 <= i < before.len(),
        after.len() == before.len(),
        forall|k: int| 0 <= k < before.len() && k != i ==> after[k] == before[k],
        after[i].spec_id() == before[i].spec_id(),
        forall|k: int|
            0 <= k < before.len() && k != i ==> (#[trigger] before[k]).spec_name()
                != after[i].spec_name(),
    ensures
        distinct(after),
{
    assert forall|a: int, b: int| 0 <= a < b < after.len() implies (#[trigger] after[a]).spec_id()
        != (#[trigger] after[b]).spec_id() && after[a].spec_name() != after[b].spec_name() by {
        assert(before[a].spec_id() != before[b].spec_id());
        assert(before[a].spec_name() != before[b].spec_name());
        if a != i {
            assert(after[a] == before[a]);
        }
        if b != i {
            assert(after[b] == before[b]);
        }
    }
}

/// Tells whether no two items share an id or a name.
pub fn all_distinct<T: Resource>(items: &Vec<T>) -> (r: bool)
    ensures
        r == distinct(items@),
{
    let n = items.len();
    let mut i: usize = 0;
    while i < n
        invariant
            i <= n,
            n == items@.len(),
            forall|a: int, b: int|
                0 <= a < b < n && a < i ==> (#[trigger] items@[a]).spec_id() != (
                #[trigger] items@[b]).spec_id() && items@[a].spec_name() != items@[b].spec_name(),
        decreases n - i,
    {
        let mut j: usize = i + 1;
        while j < n
            invariant
                i < j <= n,
                n == items@.len(),
                forall|b: int|
                    i < b < j ==> items@[i as int].spec_id() != (#[trigger] items@[b]).spec_id()
                        && items@[i as int].spec_name() != items@[b].spec_name(),
            decreases n - j,
        {
            if items[i].id() == items[j].id() || same_bytes(
                items[i].name().as_slice(),
                items[j].name().as_slice(),
            ) {
                proof {
                    assert(!(items@[i as int].spec_id() != items@[j as int].spec_id()
                        && items@[i as int].spec_name() != items@[j as int].spec_name()));
                }
                return false;
            }
            j += 1;
        }
        i += 1;
    }
    true
}

/// Removing an item keeps ids and names unique.
pub proof fn lemma_removed_distinct<T: Resource>(items: Seq<T>, i: int)
    requires
        distinct(items),
        0 <= i < items.len(),
    ensures
        distinct(items.remove(i)),
{
    let after = items.remove(i);
    assert forall|a: int, b: int| 0 <= a < b < after.len() implies (#[trigger] after[a]).spec_id()
        != (#[trigger] after[b]).spec_id() && after[a].spec_name() != after[b].spec_name() by {
        let x = if a < i { a } else { a + 1 };
        let y = if b < i { b } else { b + 1 };
        assert(after[a] == items[x]);
        assert(after[b] == items[y]);
        assert(items[x].spec_id() != items[y].spec_id());
    }
}

/// Replacing an item by one with the same id and name keeps ids and names
/// unique.
pub proof fn lemma_updated_distinct<T: Resource>(before: Seq<T>, after: Seq<T>, i: int)
    requires
        distinct(before),
        0 <= i < before.len(),
        after.len() == before.len(),
        forall|k: int| 0 <= k < before.len() && k != i ==> after[k] == before[k],
        after[i].spec_id() == before[i].spec_id(),
        after[i].spec_name() == before[i].spec_name(),
    ensures
        distinct(after),
{
    assert forall|a: int, b: int| 0 <= a < b < after.len() implies (#[trigger] after[a]).spec_id()
        != (#[trigger] after[b]).spec_id() && after[a].spec_name() != after[b].spec_name() by {
        assert(before[a].spec_id() != before[b].spec_id());
        assert(after[a].spec_id() == before[a].spec_id());
        assert(after[b].spec_id() == before[b].spec_id());
    }
}

} // verus!
