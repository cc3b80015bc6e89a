//! The bucket array that the type store and the keyed store share: open
//! addressing over a fixed number of buckets, with an intrusive collision
//! chain threaded through buckets that are otherwise unused.

use crate::datatypes::typemap::PubTypeId;
use vstd::prelude::*;

verus! {

/// Represents one entry of a bucket array: the tag of what is stored, where
/// its bytes lie in the owner's memory, and the link to the next entry of
/// the same collision chain.
#[derive(Clone, Copy)]
pub struct TypeMapEntry {
    /// The tag of the type this entry stores. Used to check for collisions.
    type_id: PubTypeId,
    /// Where the value starts in the owner's memory.
    offset: usize,
    /// How many bytes the value has.
    size: usize,
    /// If there was a collision, this stores the index of the colliding
    /// entry.
    collision_slot: Option<usize>,
    /// The order in which the entry was placed among those of its array.
    rank: Ghost<nat>,
}

impl TypeMapEntry {
    /// The tag of what the entry stores.
    pub closed spec fn spec_type_id(&self) -> PubTypeId {
        self.type_id
    }

    /// Where the value starts in the owner's memory.
    pub closed spec fn spec_offset(&self) -> int {
        self.offset as int
    }

    /// How many bytes the value has.
    pub closed spec fn spec_size(&self) -> int {
        self.size as int
    }

    /// The bucket of the next entry of the same chain.
    pub closed spec fn spec_collision_slot(&self) -> Option<usize> {
        self.collision_slot
    }

    /// The order in which the entry was placed.
    pub closed spec fn spec_rank(&self) -> nat {
        self.rank@
    }
}

/// Where a key belongs in a bucket array.
#[derive(Clone, Copy, Debug, PartialEq, Eq, Structural)]
pub enum BucketIndex {
    /// The key is stored in this bucket.
    Exact(usize),
    /// The key is not stored. Its home bucket is taken, and this bucket is
    /// the end of the chain that starts there.
    Collision(usize),
    /// The key is not stored, and its home bucket, this one, is empty.
    Vacant(usize),
}

/// The bucket at which the search for `key` starts among `buckets` buckets.
pub open spec fn home(key: PubTypeId, buckets: int) -> int {
    (key.val.0 as usize) as int % buckets
}

/// The number of buckets of `slots` that hold an entry.
pub open spec fn count_taken(slots: Seq<Option<TypeMapEntry>>) -> nat
    decreases slots.len(),
{
    if slots.len() == 0 {
        0
    } else {
        count_taken(slots.drop_last()) + if slots.last() is Some {
            1nat
        } else {
            0nat
        }
    }
}

/// Whether the chain that starts at bucket `from` leads to bucket `target`.
/// Every link of a chain leads to an entry that was placed later, which
/// `bound` limits.
#[verifier::opaque]
pub open spec fn reaches(
    slots: Seq<Option<TypeMapEntry>>,
    bound: nat,
    from: int,
    target: int,
) -> bool
    decreases bound - rank_at(slots, from),
{
    &&& 0 <= from < slots.len()
    &&& slots[from] is Some
    &&& rank_at(slots, from) < bound
    &&& (from == target || match slots[from].unwrap().spec_collision_slot() {
        Some(next) => {
            &&& 0 <= next < slots.len()
            &&& slots[next as int] is Some
            &&& rank_at(slots, from) < rank_at(slots, next as int) < bound
            &&& reaches(slots, bound, next as int, target)
        },
        None => false,
    })
}

/// The order in which the entry of a bucket was placed.
pub open spec fn rank_at(slots: Seq<Option<TypeMapEntry>>, idx: int) -> nat {
    if 0 <= idx < slots.len() && slots[idx] is Some {
        slots[idx].unwrap().spec_rank()
    } else {
        0
    }
}

/// Whether some bucket of `slots` holds an entry for `key`.
pub open spec fn has_key(slots: Seq<Option<TypeMapEntry>>, key: PubTypeId) -> bool {
    exists|i: int| holds_key(slots, key, i)
}

/// Whether bucket `idx` holds the entry for `key`.
pub open spec fn holds_key(slots: Seq<Option<TypeMapEntry>>, key: PubTypeId, idx: int) -> bool {
    0 <= idx < slots.len() && slots[idx] is Some && slots[idx].unwrap().spec_type_id() == key
}

/// The bucket that holds the entry for `key`.
pub open spec fn index_of(slots: Seq<Option<TypeMapEntry>>, key: PubTypeId) -> int {
    choose|i: int| holds_key(slots, key, i)
}

/// The invariant of a bucket array: each key is stored once, each entry is
/// found by walking the chain of its home bucket, and chains only lead to
/// entries that were placed later.
pub open spec fn chained(slots: Seq<Option<TypeMapEntry>>, bound: nat) -> bool {
    &&& forall|i: int|
        0 <= i < slots.len() && (#[trigger] slots[i]) is Some ==> linked(slots, bound, i)
    &&& forall|i: int|
        0 <= i < slots.len() && (#[trigger] slots[i]) is Some ==> reaches(
            slots,
            bound,
            home(slots[i].unwrap().spec_type_id(), slots.len() as int),
            i,
        )
    &&& forall|i: int, j: int|
        0 <= i < slots.len() && 0 <= j < slots.len() && (#[trigger] slots[i]) is Some && (
        #[trigger] slots[j]) is Some && slots[i].unwrap().spec_type_id()
            == slots[j].unwrap().spec_type_id() ==> i == j
}

/// Whether the link of the entry in bucket `idx`, if it has one, leads to a
/// bucket with an entry that was placed later.
pub open spec fn linked(slots: Seq<Option<TypeMapEntry>>, bound: nat, idx: int) -> bool {
    &&& rank_at(slots, idx) < bound
    &&& match slots[idx].unwrap().spec_collision_slot() {
        Some(next) => {
            &&& 0 <= next < slots.len()
            &&& slots[next as int] is Some
            &&& rank_at(slots, idx) < rank_at(slots, next as int) < bound
        },
        None => true,
    }
}

/// A bucket array never holds more entries than it has buckets.
pub proof fn lemma_count_bounded(slots: Seq<Option<TypeMapEntry>>)
    ensures
        count_taken(slots) <= slots.len(),
    decreases slots.len(),
{
    if slots.len() > 0 {
        lemma_count_bounded(slots.drop_last());
    }
}

/// An array with an empty bucket holds fewer entries than it has buckets.
pub proof fn lemma_count_with_gap(slots: Seq<Option<TypeMapEntry>>, gap: int)
    requires
        0 <= gap < slots.len(),
        slots[gap] is None,
    ensures
        count_taken(slots) < slots.len(),
    decreases slots.len(),
{
    lemma_count_bounded(slots.drop_last());
    if gap < slots.len() - 1 {
        lemma_count_with_gap(slots.drop_last(), gap);
    }
}

/// An array without an empty bucket holds as many entries as it has
/// buckets.
pub proof fn lemma_count_full(slots: Seq<Option<TypeMapEntry>>)
    requires
        forall|i: int| 0 <= i < slots.len() ==> (#[trigger] slots[i]) is Some,
    ensures
        count_taken(slots) == slots.len(),
    decreases slots.len(),
{
    if slots.len() > 0 {
        lemma_count_full(slots.drop_last());
    }
}

/// An array of empty buckets holds no entry.
pub proof fn lemma_count_empty(slots: Seq<Option<TypeMapEntry>>)
    requires
        forall|i: int| 0 <= i < slots.len() ==> (#[trigger] slots[i]) is None,
    ensures
        count_taken(slots) == 0,
    decreases slots.len(),
{
    if slots.len() > 0 {
        lemma_count_empty(slots.drop_last());
    }
}

/// Writing one bucket changes the count by what the bucket gains or loses.
pub proof fn lemma_count_update(
    slots: Seq<Option<TypeMapEntry>>,
    idx: int,
    entry: Option<TypeMapEntry>,
)
    requires
        0 <= idx < slots.len(),
    ensures
        count_taken(slots.update(idx, entry)) + (if slots[idx] is Some {
            1nat
        } else {
            0nat
        }) == count_taken(slots) + (if entry is Some {
            1nat
        } else {
            0nat
        }),
    decreases slots.len(),
{
    let after = slots.update(idx, entry);
    if idx == slots.len() - 1 {
        assert(after.drop_last() =~= slots.drop_last());
    } else {
        assert(after.drop_last() =~= slots.drop_last().update(idx, entry));
        lemma_count_update(slots.drop_last(), idx, entry);
    }
}

/// A chain starts at a bucket that holds an entry.
pub proof fn lemma_reaches_start(
    slots: Seq<Option<TypeMapEntry>>,
    bound: nat,
    from: int,
    target: int,
)
    requires
        reaches(slots, bound, from, target),
    ensures
        0 <= from < slots.len(),
        slots[from] is Some,
        from != target ==> slots[from].unwrap().spec_collision_slot() is Some && reaches(
            slots,
            bound,
            slots[from].unwrap().spec_collision_slot().unwrap() as int,
            target,
        ),
{
    reveal(reaches);
}

/// The chain of a bucket that holds an entry leads to that bucket.
pub proof fn lemma_reaches_self(slots: Seq<Option<TypeMapEntry>>, bound: nat, idx: int)
    requires
        0 <= idx < slots.len(),
        slots[idx] is Some,
        rank_at(slots, idx) < bound,
    ensures
        reaches(slots, bound, idx, idx),
{
    reveal(reaches);
}

/// Chains survive a change that keeps every entry in its bucket with its
/// rank, and every link that was set.
pub proof fn lemma_reaches_kept(
    before: Seq<Option<TypeMapEntry>>,
    after: Seq<Option<TypeMapEntry>>,
    bound: nat,
    later: nat,
    from: int,
    target: int,
)
    requires
        reaches(before, bound, from, target),
        links_kept(before, after),
        bound <= later,
    ensures
        reaches(after, later, from, target),
    decreases bound - rank_at(before, from),
{
    reveal(reaches);
    assert(before[from] is Some);
    if from != target {
        let next = before[from].unwrap().spec_collision_slot().unwrap() as int;
        assert(before[next] is Some);
        lemma_reaches_kept(before, after, bound, later, next, target);
    }
}

/// A chain that ended at `last` leads to `added` once `last` links to it.
pub proof fn lemma_reaches_added(
    before: Seq<Option<TypeMapEntry>>,
    after: Seq<Option<TypeMapEntry>>,
    bound: nat,
    later: nat,
    from: int,
    last: int,
    added: usize,
)
    requires
        reaches(before, bound, from, last),
        links_kept(before, after),
        bound <= later,
        0 <= added < after.len(),
        after[added as int] is Some,
        after[last].unwrap().spec_collision_slot() == Some(added),
        rank_at(after, last) < rank_at(after, added as int) < later,
    ensures
        reaches(after, later, from, added as int),
    decreases bound - rank_at(before, from),
{
    reveal(reaches);
    assert(before[from] is Some);
    assert(after[from] is Some);
    if from != last {
        let next = before[from].unwrap().spec_collision_slot().unwrap() as int;
        assert(before[next] is Some);
        assert(after[next] is Some);
        lemma_reaches_added(before, after, bound, later, next, last, added);
    } else {
        assert(reaches(after, later, added as int, added as int));
    }
}

/// Whether `after` keeps every entry of `before` in its bucket with its
/// rank, and every link that was set.
pub open spec fn links_kept(
    before: Seq<Option<TypeMapEntry>>,
    after: Seq<Option<TypeMapEntry>>,
) -> bool {
    &&& after.len() == before.len()
    &&& forall|i: int|
        0 <= i < before.len() && (#[trigger] before[i]) is Some ==> {
            &&& after[i] is Some
            &&& after[i].unwrap().spec_rank() == before[i].unwrap().spec_rank()
            &&& (before[i].unwrap().spec_collision_slot() is Some
                ==> after[i].unwrap().spec_collision_slot()
                == before[i].unwrap().spec_collision_slot())
        }
}

/// In a chained array the bucket of a key is the only one that holds it.
pub proof fn lemma_index_of(slots: Seq<Option<TypeMapEntry>>, bound: nat, key: PubTypeId, idx: int)
    requires
        chained(slots, bound),
        holds_key(slots, key, idx),
    ensures
        has_key(slots, key),
        index_of(slots, key) == idx,
{
    let found = index_of(slots, key);
    assert(holds_key(slots, key, found));
    assert(slots[found] is Some && slots[idx] is Some);
}

/// Whether `after` is `before` with one entry more: an entry for `key` in
/// bucket `idx`, which was empty, and, where `link_from` names a bucket,
/// the link from the entry of that bucket to the new one.
pub open spec fn entry_added(
    before: Seq<Option<TypeMapEntry>>,
    after: Seq<Option<TypeMapEntry>>,
    bound: nat,
    key: PubTypeId,
    idx: usize,
    link_from: Option<int>,
) -> bool {
    &&& after.len() == before.len()
    &&& 0 <= idx < before.len()
    &&& before[idx as int] is None
    &&& after[idx as int] is Some
    &&& after[idx as int].unwrap().spec_type_id() == key
    &&& after[idx as int].unwrap().spec_rank() == bound
    &&& after[idx as int].unwrap().spec_collision_slot() is None
    &&& forall|i: int|
        0 <= i < before.len() && i != idx && Some(i) != link_from ==> #[trigger] after[i]
            == before[i]
    &&& match link_from {
        Some(last) => {
            &&& 0 <= last < before.len()
            &&& before[last] is Some
            &&& after[last] is Some
            &&& before[last].unwrap().spec_collision_slot() is None
            &&& after[last].unwrap().spec_collision_slot() == Some(idx)
            &&& same_entry(before[last].unwrap(), after[last].unwrap())
        },
        None => true,
    }
}

/// Whether two entries agree in all but their link.
pub open spec fn same_entry(a: TypeMapEntry, b: TypeMapEntry) -> bool {
    &&& a.spec_type_id() == b.spec_type_id()
    &&& a.spec_rank() == b.spec_rank()
    &&& a.spec_offset() == b.spec_offset()
    &&& a.spec_size() == b.spec_size()
}

/// Whether `after` holds the keys of `before`, each in the bucket and with
/// the bytes that it had.
pub open spec fn keys_kept(
    before: Seq<Option<TypeMapEntry>>,
    after: Seq<Option<TypeMapEntry>>,
) -> bool {
    forall|k: PubTypeId| #[trigger]
        has_key(before, k) ==> has_key(after, k) && index_of(after, k) == index_of(before, k)
            && same_entry(
            before[index_of(before, k)].unwrap(),
            after[index_of(after, k)].unwrap(),
        )
}

/// Adding an entry where it belongs keeps the array chained and the other
/// keys where they were.
pub proof fn lemma_added(
    before: Seq<Option<TypeMapEntry>>,
    after: Seq<Option<TypeMapEntry>>,
    bound: nat,
    key: PubTypeId,
    idx: usize,
    link_from: Option<int>,
)
    requires
        chained(before, bound),
        !has_key(before, key),
        entry_added(before, after, bound, key, idx, link_from),
        link_from is None ==> idx == home(key, before.len() as int),
        link_from is Some ==> reaches(
            before,
            bound,
            home(key, before.len() as int),
            link_from.unwrap(),
        ),
    ensures
        chained(after, (bound + 1) as nat),
        holds_key(after, key, idx as int),
        has_key(after, key),
        index_of(after, key) == idx,
        forall|k: PubTypeId| #[trigger] has_key(after, k) <==> has_key(before, k) || k == key,
        keys_kept(before, after),
{
    let later = (bound + 1) as nat;
    assert(links_kept(before, after)) by {
        assert forall|i: int| 0 <= i < before.len() && (#[trigger] before[i]) is Some implies {
            &&& after[i] is Some
            &&& after[i].unwrap().spec_rank() == before[i].unwrap().spec_rank()
            &&& (before[i].unwrap().spec_collision_slot() is Some
                ==> after[i].unwrap().spec_collision_slot()
                == before[i].unwrap().spec_collision_slot())
        } by {
            if Some(i) != link_from {
                assert(after[i] == before[i]);
            }
        }
    }
    assert forall|i: int| 0 <= i < before.len() && before[i] is Some implies same_entry(
        before[i].unwrap(),
        #[trigger] after[i].unwrap(),
    ) by {
        if Some(i) != link_from {
            assert(after[i] == before[i]);
        }
    }
    assert forall|i: int| 0 <= i < after.len() && (#[trigger] after[i]) is Some implies linked(
        after,
        later,
        i,
    ) by {
        if i != idx {
            if Some(i) != link_from {
                assert(after[i] == before[i]);
            }
            assert(before[i] is Some);
            assert(linked(before, bound, i));
            match before[i].unwrap().spec_collision_slot() {
                Some(next) => {
                    assert(before[next as int] is Some);
                    assert(after[next as int] is Some);
                },
                None => {},
            }
        }
    }
    assert forall|i: int| 0 <= i < after.len() && (#[trigger] after[i]) is Some implies reaches(
        after,
        later,
        home(after[i].unwrap().spec_type_id(), after.len() as int),
        i,
    ) by {
        if i != idx {
            if Some(i) != link_from {
                assert(after[i] == before[i]);
            }
            assert(before[i] is Some);
            lemma_reaches_kept(
                before,
                after,
                bound,
                later,
                home(before[i].unwrap().spec_type_id(), before.len() as int),
                i,
            );
        } else {
            match link_from {
                Some(last) => {
                    lemma_reaches_added(
                        before,
                        after,
                        bound,
                        later,
                        home(key, before.len() as int),
                        last,
                        idx,
                    );
                },
                None => {
                    lemma_reaches_self(after, later, idx as int);
                },
            }
        }
    }
    assert forall|i: int, j: int|
        0 <= i < after.len() && 0 <= j < after.len() && (#[trigger] after[i]) is Some && (
        #[trigger] after[j]) is Some && after[i].unwrap().spec_type_id()
            == after[j].unwrap().spec_type_id() implies i == j by {
        if i != idx && j != idx {
            assert(before[i] is Some && before[j] is Some);
        } else if i != idx {
            assert(before[i] is Some);
            assert(holds_key(before, key, i));
        } else if j != idx {
            assert(before[j] is Some);
            assert(holds_key(before, key, j));
        }
    }
    assert(holds_key(after, key, idx as int));
    lemma_index_of(after, later, key, idx as int);
    assert forall|k: PubTypeId| #[trigger] has_key(after, k) <==> has_key(before, k) || k
        == key by {
        if has_key(after, k) && k != key {
            let i = index_of(after, k);
            assert(holds_key(after, k, i));
            assert(holds_key(before, k, i));
        }
        if has_key(before, k) {
            let i = index_of(before, k);
            assert(holds_key(before, k, i));
            assert(holds_key(after, k, i));
        }
    }
    assert forall|k: PubTypeId| #[trigger] has_key(before, k) implies has_key(after, k)
        && index_of(after, k) == index_of(before, k) && same_entry(
        before[index_of(before, k)].unwrap(),
        after[index_of(after, k)].unwrap(),
    ) by {
        let i = index_of(before, k);
        assert(holds_key(before, k, i));
        assert(holds_key(after, k, i));
        lemma_index_of(after, later, k, i);
    }
}

/// Changing where the bytes of one entry lie keeps the array chained and
/// every key in its bucket.
pub proof fn lemma_moved(
    before: Seq<Option<TypeMapEntry>>,
    after: Seq<Option<TypeMapEntry>>,
    bound: nat,
    idx: int,
)
    requires
        chained(before, bound),
        after.len() == before.len(),
        0 <= idx < before.len(),
        before[idx] is Some,
        after[idx] is Some,
        after[idx].unwrap().spec_type_id() == before[idx].unwrap().spec_type_id(),
        after[idx].unwrap().spec_rank() == before[idx].unwrap().spec_rank(),
        after[idx].unwrap().spec_collision_slot() == before[idx].unwrap().spec_collision_slot(),
        forall|i: int| 0 <= i < before.len() && i != idx ==> #[trigger] after[i] == before[i],
    ensures
        chained(after, bound),
        forall|k: PubTypeId| #[trigger] has_key(after, k) <==> has_key(before, k),
        forall|k: PubTypeId| #[trigger]
            has_key(before, k) ==> index_of(after, k) == index_of(before, k),
        forall|k: PubTypeId| #[trigger]
            has_key(before, k) ==> (k == before[idx].unwrap().spec_type_id() <==> index_of(before, k) == idx),
{
    assert(links_kept(before, after)) by {
        assert forall|i: int| 0 <= i < before.len() && (#[trigger] before[i]) is Some implies {
            &&& after[i] is Some
            &&& after[i].unwrap().spec_rank() == before[i].unwrap().spec_rank()
            &&& (before[i].unwrap().spec_collision_slot() is Some
                ==> after[i].unwrap().spec_collision_slot()
                == before[i].unwrap().spec_collision_slot())
        } by {
            if i != idx {
                assert(after[i] == before[i]);
            }
        }
    }
    assert forall|i: int| 0 <= i < after.len() implies (#[trigger] after[i]) is Some
        == before[i] is Some && (before[i] is Some ==> after[i].unwrap().spec_type_id()
        == before[i].unwrap().spec_type_id()) by {
        if i != idx {
            assert(after[i] == before[i]);
        }
    }
    assert forall|i: int| 0 <= i < after.len() && (#[trigger] after[i]) is Some implies linked(
        after,
        bound,
        i,
    ) by {
        assert(before[i] is Some);
        assert(linked(before, bound, i));
        if i != idx {
            assert(after[i] == before[i]);
        }
        match before[i].unwrap().spec_collision_slot() {
            Some(next) => {
                assert(before[next as int] is Some);
                assert(after[next as int] is Some);
            },
            None => {},
        }
    }
    assert forall|i: int| 0 <= i < after.len() && (#[trigger] after[i]) is Some implies reaches(
        after,
        bound,
        home(after[i].unwrap().spec_type_id(), after.len() as int),
        i,
    ) by {
        assert(before[i] is Some);
        lemma_reaches_kept(
            before,
            after,
            bound,
            bound,
            home(before[i].unwrap().spec_type_id(), before.len() as int),
            i,
        );
    }
    assert forall|i: int, j: int|
        0 <= i < after.len() && 0 <= j < after.len() && (#[trigger] after[i]) is Some && (
        #[trigger] after[j]) is Some && after[i].unwrap().spec_type_id()
            == after[j].unwrap().spec_type_id() implies i == j by {
        assert(before[i] is Some && before[j] is Some);
    }
    assert forall|k: PubTypeId| #[trigger] has_key(after, k) <==> has_key(before, k) by {
        if has_key(after, k) {
            let i = index_of(after, k);
            assert(holds_key(after, k, i));
            assert(holds_key(before, k, i));
        }
        if has_key(before, k) {
            let i = index_of(before, k);
            assert(holds_key(before, k, i));
            assert(holds_key(after, k, i));
        }
    }
    assert forall|k: PubTypeId| #[trigger] has_key(before, k) implies index_of(after, k)
        == index_of(before, k) by {
        let i = index_of(before, k);
        assert(holds_key(before, k, i));
        assert(holds_key(after, k, i));
        lemma_index_of(after, bound, k, i);
    }
    assert forall|k: PubTypeId| #[trigger] has_key(before, k) implies (k
        == before[idx].unwrap().spec_type_id() <==> index_of(before, k) == idx) by {
        let i = index_of(before, k);
        assert(holds_key(before, k, i));
        if k == before[idx].unwrap().spec_type_id() {
            lemma_index_of(before, bound, k, idx);
        }
    }
}

/// Whether one of the first `upto` buckets holds the entry for `key`.
pub open spec fn held_before(slots: Seq<Option<TypeMapEntry>>, key: PubTypeId, upto: int) -> bool {
    exists|j: int| 0 <= j < upto && holds_key(slots, key, j)
}

/// The first buckets of an array hold no more entries than the whole array.
pub proof fn lemma_count_prefix(slots: Seq<Option<TypeMapEntry>>, upto: int)
    requires
        0 <= upto <= slots.len(),
    ensures
        count_taken(slots.take(upto)) <= count_taken(slots),
    decreases slots.len() - upto,
{
    if upto == slots.len() {
        assert(slots.take(upto) =~= slots);
    } else {
        lemma_count_prefix(slots, upto + 1);
        assert(slots.take(upto + 1).drop_last() =~= slots.take(upto));
    }
}

/// A fixed array of buckets with collision chains.
pub struct Buckets {
    /// The buckets. An entry sits in its home bucket or, where that was
    /// taken, in the first bucket that was free when the entry came.
    slots: Vec<Option<TypeMapEntry>>,
    /// How many buckets hold an entry.
    taken: usize,
    /// How many entries were placed since the array was made.
    placed: Ghost<nat>,
}

impl Buckets {
    /// The buckets.
    pub closed spec fn slots(&self) -> Seq<Option<TypeMapEntry>> {
        self.slots@
    }

    /// How many buckets hold an entry.
    pub closed spec fn spec_taken(&self) -> int {
        self.taken as int
    }

    /// How many entries were placed since the array was made.
    pub closed spec fn placed(&self) -> nat {
        self.placed@
    }

    /// The number of buckets.
    pub open spec fn spec_len(&self) -> int {
        self.slots().len() as int
    }

    /// The invariant of the array.
    pub open spec fn wf(&self) -> bool {
        &&& chained(self.slots(), self.placed())
        &&& self.spec_taken() == count_taken(self.slots())
    }

    /// Whether the array holds an entry for `key`.
    pub open spec fn contains(&self, key: PubTypeId) -> bool {
        has_key(self.slots(), key)
    }

    /// The entry for `key`.
    pub open spec fn entry(&self, key: PubTypeId) -> TypeMapEntry {
        self.slots()[index_of(self.slots(), key)].unwrap()
    }

    /// Where the bytes for `key` start in the owner's memory.
    pub open spec fn offset(&self, key: PubTypeId) -> int {
        self.entry(key).spec_offset()
    }

    /// How many bytes are stored for `key`.
    pub open spec fn size(&self, key: PubTypeId) -> int {
        self.entry(key).spec_size()
    }

    /// An array of `buckets` empty buckets.
    pub fn new(buckets: usize) -> (b: Self)
        ensures
            b.wf(),
            b.spec_len() == buckets,
            b.spec_taken() == 0,
            forall|i: int| 0 <= i < buckets ==> (#[trigger] b.slots()[i]) is None,
            forall|key: PubTypeId| !b.contains(key),
    {
        let mut slots: Vec<Option<TypeMapEntry>> = Vec::new();
        while slots.len() < buckets
            invariant
                slots@.len() <= buckets,
                forall|i: int| 0 <= i < slots@.len() ==> (#[trigger] slots@[i]) is None,
            decreases buckets - slots@.len(),
        {
            slots.push(None);
        }
        proof {
            lemma_count_empty(slots@);
        }
        Buckets { slots, taken: 0, placed: Ghost(0) }
    }

    /// The number of buckets.
    pub fn len(&self) -> (len: usize)
        ensures
            len == self.spec_len(),
    {
        self.slots.len()
    }

    /// How many buckets hold an entry.
    pub fn taken(&self) -> (taken: usize)
        ensures
            taken == self.spec_taken(),
    {
        self.taken
    }

    /// Whether bucket `idx` holds an entry.
    pub fn is_taken(&self, idx: usize) -> (taken: bool)
        requires
            idx < self.spec_len(),
        ensures
            taken == (self.slots()[idx as int] is Some),
    {
        self.slots[idx].is_some()
    }

    /// Where the bytes of the entry in bucket `idx` lie: their offset and
    /// their number.
    pub fn location(&self, idx: usize) -> (location: (usize, usize))
        requires
            idx < self.spec_len(),
            self.slots()[idx as int] is Some,
        ensures
            location.0 == self.slots()[idx as int].unwrap().spec_offset(),
            location.1 == self.slots()[idx as int].unwrap().spec_size(),
    {
        let entry = self.slots[idx].unwrap();
        (entry.offset, entry.size)
    }

    /// Walks the chain of the home bucket of `key` and says where the key
    /// belongs.
    pub fn find(&self, key: PubTypeId) -> (found: BucketIndex)
        requires
            self.wf(),
            self.spec_len() > 0,
        ensures
            self.fits(key, found),
    {
        let start = (key.val.0 as usize) % self.slots.len();
        if self.slots[start].is_none() {
            proof {
                assert forall|i: int| !holds_key(self.slots(), key, i) by {
                    if holds_key(self.slots(), key, i) {
                        assert(self.slots()[i] is Some);
                        lemma_reaches_start(self.slots(), self.placed(), start as int, i);
                    }
                }
            }
            return BucketIndex::Vacant(start);
        }
        let mut idx = start;
        proof {
            assert(linked(self.slots@, self.placed@, start as int));
            lemma_reaches_self(self.slots@, self.placed@, start as int);
            assert forall|i: int| holds_key(self.slots@, key, i) implies reaches(
                self.slots@,
                self.placed@,
                start as int,
                i,
            ) by {
                assert(self.slots@[i] is Some);
            }
        }
        loop
            invariant
                self.wf(),
                0 <= idx < self.slots@.len(),
                0 <= start < self.slots@.len(),
                start == home(key, self.spec_len()),
                self.slots@[idx as int] is Some,
                rank_at(self.slots@, idx as int) < self.placed@,
                reaches(self.slots@, self.placed@, start as int, idx as int),
                forall|i: int|
                    holds_key(self.slots@, key, i) ==> reaches(
                        self.slots@,
                        self.placed@,
                        idx as int,
                        i,
                    ),
            decreases self.placed@ - rank_at(self.slots@, idx as int),
        {
            let entry = self.slots[idx].unwrap();
            if entry.type_id.same(&key) {
                return BucketIndex::Exact(idx);
            }
            match entry.collision_slot {
                Some(next) => {
                    proof {
                        assert forall|i: int| holds_key(self.slots@, key, i) implies reaches(
                            self.slots@,
                            self.placed@,
                            next as int,
                            i,
                        ) by {
                            lemma_reaches_start(self.slots@, self.placed@, idx as int, i);
                            assert(self.slots@[i] is Some);
                        }
                        lemma_reaches_added(
                            self.slots@,
                            self.slots@,
                            self.placed@,
                            self.placed@,
                            start as int,
                            idx as int,
                            next,
                        );
                    }
                    idx = next;
                },
                None => {
                    proof {
                        assert forall|i: int| !holds_key(self.slots@, key, i) by {
                            if holds_key(self.slots@, key, i) {
                                lemma_reaches_start(self.slots@, self.placed@, idx as int, i);
                                assert(self.slots@[i] is Some);
                            }
                        }
                    }
                    return BucketIndex::Collision(idx);
                },
            }
        }
    }

    /// Whether `found` says where `key` belongs: in the bucket that holds
    /// it, behind the end of the chain of its home bucket, or in its home
    /// bucket, which is empty.
    pub open spec fn fits(&self, key: PubTypeId, found: BucketIndex) -> bool {
        match found {
            BucketIndex::Exact(idx) => holds_key(self.slots(), key, idx as int),
            BucketIndex::Collision(idx) => {
                &&& !self.contains(key)
                &&& 0 <= idx < self.spec_len()
                &&& self.slots()[idx as int] is Some
                &&& self.slots()[idx as int].unwrap().spec_collision_slot() is None
                &&& reaches(
                    self.slots(),
                    self.placed(),
                    home(key, self.spec_len()),
                    idx as int,
                )
            },
            BucketIndex::Vacant(idx) => {
                &&& !self.contains(key)
                &&& idx == home(key, self.spec_len())
                &&& 0 <= idx < self.spec_len()
                &&& self.slots()[idx as int] is None
            },
        }
    }

    /// The first empty bucket, which exists while the array is not full.
    pub fn first_empty(&self) -> (idx: usize)
        requires
            self.wf(),
            self.spec_taken() < self.spec_len(),
        ensures
            idx < self.spec_len(),
            self.slots()[idx as int] is None,
            forall|i: int| 0 <= i < idx ==> (#[trigger] self.slots()[i]) is Some,
    {
        let mut idx: usize = 0;
        while idx < self.slots.len() && self.slots[idx].is_some()
            invariant
                self.wf(),
                self.spec_taken() < self.spec_len(),
                idx <= self.slots@.len(),
                forall|i: int| 0 <= i < idx ==> (#[trigger] self.slots@[i]) is Some,
            decreases self.slots@.len() - idx,
        {
            idx = idx + 1;
        }
        proof {
            if idx == self.slots@.len() {
                lemma_count_full(self.slots@);
            }
        }
        idx
    }

    /// Stores a new entry for `key`, which the array does not hold, where
    /// `at` says that it belongs: in its home bucket if that is empty, else
    /// in the first empty bucket, linked to the end of the chain of its home
    /// bucket. Returns the bucket.
    pub fn place(&mut self, at: BucketIndex, key: PubTypeId, offset: usize, size: usize) -> (idx:
        usize)
        requires
            old(self).wf(),
            old(self).spec_taken() < old(self).spec_len(),
            old(self).fits(key, at),
            !(at is Exact),
        ensures
            final(self).wf(),
            final(self).spec_len() == old(self).spec_len(),
            final(self).spec_taken() == old(self).spec_taken() + 1,
            holds_key(final(self).slots(), key, idx as int),
            final(self).contains(key),
            final(self).offset(key) == offset,
            final(self).size(key) == size,
            forall|k: PubTypeId| #[trigger]
                final(self).contains(k) <==> old(self).contains(k) || k == key,
            forall|k: PubTypeId| #[trigger]
                old(self).contains(k) ==> final(self).offset(k) == old(self).offset(k) && final(self).size(k) == old(self).size(k),
    {
        let ghost before = self.slots@;
        let ghost bound = self.placed@;
        let buckets = self.slots.len();
        let entry = TypeMapEntry {
            type_id: key,
            offset,
            size,
            collision_slot: None,
            rank: Ghost(bound),
        };
        let idx = match at {
            BucketIndex::Vacant(home_idx) => {
                self.slots.set(home_idx, Some(entry));
                proof {
                    lemma_count_update(before, home_idx as int, Some(entry));
                    lemma_added(before, self.slots@, bound, key, home_idx, None);
                }
                home_idx
            },
            BucketIndex::Collision(last) => {
                let free = self.first_empty();
                let mut tail = self.slots[last].unwrap();
                tail.collision_slot = Some(free);
                self.slots.set(last, Some(tail));
                self.slots.set(free, Some(entry));
                proof {
                    lemma_count_update(before, last as int, Some(tail));
                    lemma_count_update(
                        before.update(last as int, Some(tail)),
                        free as int,
                        Some(entry),
                    );
                    lemma_added(before, self.slots@, bound, key, free, Some(last as int));
                }
                free
            },
            BucketIndex::Exact(found) => found,
        };
        assert(self.taken < before.len() <= usize::MAX);
        self.taken = self.taken + 1;
        self.placed = Ghost((bound + 1) as nat);
        idx
    }

    /// Moves the bytes of the entry in bucket `idx` to another place of the
    /// owner's memory. The entry keeps its bucket and its chain.
    pub fn relocate(&mut self, idx: usize, offset: usize, size: usize)
        requires
            old(self).wf(),
            idx < old(self).spec_len(),
            old(self).slots()[idx as int] is Some,
        ensures
            final(self).wf(),
            final(self).spec_len() == old(self).spec_len(),
            final(self).spec_taken() == old(self).spec_taken(),
            forall|k: PubTypeId| #[trigger] final(self).contains(k) <==> old(self).contains(k),
            forall|k: PubTypeId| #[trigger]
                old(self).contains(k) ==> final(self).offset(k) == (if k == old(self).slots()[idx as int].unwrap().spec_type_id() {
                    offset as int
                } else {
                    old(self).offset(k)
                }) && final(self).size(k) == (if k == old(self).slots()[idx as int].unwrap().spec_type_id() {
                    size as int
                } else {
                    old(self).size(k)
                }),
    {
        let ghost before = self.slots@;
        let ghost bound = self.placed@;
        let mut entry = self.slots[idx].unwrap();
        entry.offset = offset;
        entry.size = size;
        self.slots.set(idx, Some(entry));
        proof {
            lemma_count_update(before, idx as int, Some(entry));
            lemma_moved(before, self.slots@, bound, idx as int);
        }
    }

    /// The entries of this array in a new array of `buckets` buckets. The
    /// entries are placed again one by one, in the order of their buckets,
    /// each where the new number of buckets says that it belongs.
    pub fn resized(&self, buckets: usize) -> (grown: Buckets)
        requires
            self.wf(),
            self.spec_taken() <= buckets,
        ensures
            grown.wf(),
            grown.spec_len() == buckets,
            grown.spec_taken() == self.spec_taken(),
            forall|k: PubTypeId| #[trigger] grown.contains(k) <==> self.contains(k),
            forall|k: PubTypeId| #[trigger]
                self.contains(k) ==> grown.offset(k) == self.offset(k) && grown.size(k)
                    == self.size(k),
    {
        let mut grown = Buckets::new(buckets);
        let mut i: usize = 0;
        proof {
            assert(self.slots@.take(0) =~= Seq::<Option<TypeMapEntry>>::empty());
        }
        while i < self.slots.len()
            invariant
                self.wf(),
                self.spec_taken() <= buckets,
                grown.wf(),
                grown.spec_len() == buckets,
                i <= self.slots@.len(),
                grown.spec_taken() == count_taken(self.slots@.take(i as int)),
                forall|k: PubTypeId| #[trigger]
                    grown.contains(k) <==> held_before(self.slots@, k, i as int),
                forall|k: PubTypeId| #[trigger]
                    grown.contains(k) ==> grown.offset(k) == self.offset(k) && grown.size(k)
                        == self.size(k),
            decreases self.slots@.len() - i,
        {
            let ghost before = grown;
            proof {
                assert(self.slots@.take(i + 1).drop_last() =~= self.slots@.take(i as int));
                lemma_count_prefix(self.slots@, i + 1);
            }
            match self.slots[i] {
                Some(entry) => {
                    let key = entry.type_id;
                    proof {
                        assert(holds_key(self.slots@, key, i as int));
                        lemma_index_of(self.slots@, self.placed@, key, i as int);
                        if grown.contains(key) {
                            let j = choose|j: int| 0 <= j < i && holds_key(self.slots@, key, j);
                            assert(self.slots@[j] is Some && self.slots@[i as int] is Some);
                        }
                    }
                    let at = grown.find(key);
                    let _ = grown.place(at, key, entry.offset, entry.size);
                    proof {
                        assert forall|k: PubTypeId| #[trigger]
                            grown.contains(k) <==> held_before(self.slots@, k, i + 1) by {
                            if held_before(self.slots@, k, i + 1) {
                                let j = choose|j: int|
                                    0 <= j < i + 1 && holds_key(self.slots@, k, j);
                                if j < i {
                                    assert(held_before(self.slots@, k, i as int));
                                    assert(before.contains(k));
                                }
                            }
                            if before.contains(k) {
                                let j = choose|j: int| 0 <= j < i && holds_key(self.slots@, k, j);
                                assert(0 <= j < i + 1 && holds_key(self.slots@, k, j));
                            }
                        }
                    }
                },
                None => {
                    proof {
                        assert forall|k: PubTypeId| #[trigger]
                            grown.contains(k) <==> held_before(self.slots@, k, i + 1) by {
                            if held_before(self.slots@, k, i + 1) {
                                let j = choose|j: int|
                                    0 <= j < i + 1 && holds_key(self.slots@, k, j);
                                assert(j < i);
                                assert(held_before(self.slots@, k, i as int));
                            }
                            if grown.contains(k) {
                                let j = choose|j: int| 0 <= j < i && holds_key(self.slots@, k, j);
                                assert(0 <= j < i + 1 && holds_key(self.slots@, k, j));
                            }
                        }
                    }
                },
            }
            i = i + 1;
        }
        proof {
            assert(self.slots@.take(i as int) =~= self.slots@);
            assert forall|k: PubTypeId| #[trigger] grown.contains(k) <==> self.contains(k) by {
                if self.contains(k) {
                    let j = index_of(self.slots@, k);
                    assert(holds_key(self.slots@, k, j));
                    assert(held_before(self.slots@, k, i as int));
                }
                if grown.contains(k) {
                    let j = choose|j: int| 0 <= j < i && holds_key(self.slots@, k, j);
                    assert(holds_key(self.slots@, k, j));
                }
            }
            assert forall|k: PubTypeId| #[trigger] self.contains(k) implies grown.offset(k)
                == self.offset(k) && grown.size(k) == self.size(k) by {
                assert(grown.contains(k));
            }
        }
        grown
    }

    /// Empties every bucket. The number of buckets stays.
    pub fn clear(&mut self)
        ensures
            final(self).wf(),
            final(self).spec_len() == old(self).spec_len(),
            final(self).spec_taken() == 0,
            forall|key: PubTypeId| !final(self).contains(key),
    {
        let buckets = self.slots.len();
        *self = Buckets::new(buckets);
    }
}

} // verus!
