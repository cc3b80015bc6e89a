//! Module for [`TypeMap`].

pub use crate::datatypes::buckets::TypeMapEntry;
use crate::datatypes::buckets::{BucketIndex, Buckets};
use crate::utils::{align, align_up, lemma_align_up};
use vstd::prelude::*;

verus! {

/// The identity of a type: an opaque tag that can be compared and hashed.
/// The first half of the tag decides the bucket in which a store looks for
/// the type first.
#[derive(Clone, Copy, Debug, PartialEq, Eq, PartialOrd, Ord)]
pub struct PubTypeId {
    pub val: (u64, u64),
}

impl PubTypeId {
    /// Whether two tags name the same type.
    pub fn same(&self, other: &PubTypeId) -> (same: bool)
        ensures
            same == (*self == *other),
    {
        self.val.0 == other.val.0 && self.val.1 == other.val.1
    }
}

/// The largest number of buckets or of bytes that a store asks for: no
/// allocation is larger than half the address space.
pub open spec fn max_allocation() -> int {
    (usize::MAX / 2) as int
}

/// The capacity that follows `capacity` when a store grows: one where there
/// was nothing, the double otherwise.
pub open spec fn doubled(capacity: int) -> int {
    if capacity == 0 {
        1
    } else {
        2 * capacity
    }
}

/// The first capacity that is at least `needed` among `capacity` and what
/// follows it by doubling.
pub open spec fn doubled_until(capacity: int, needed: int) -> int
    decreases
            (if needed > capacity {
                needed - capacity
            } else {
                0
            }),
    when capacity >= 0
{
    if capacity >= needed {
        capacity
    } else {
        doubled_until(doubled(capacity), needed)
    }
}

/// Copies `bytes` over the bytes of `storage` that start at `at`.
fn write_bytes(storage: &mut Vec<u8>, at: usize, bytes: &[u8])
    requires
        at + bytes@.len() <= old(storage)@.len(),
    ensures
        final(storage)@.len() == old(storage)@.len(),
        final(storage)@.subrange(at as int, at + bytes@.len()) == bytes@,
        forall|i: int|
            0 <= i < at || at + bytes@.len() <= i < old(storage)@.len() ==> final(storage)@[i]
                == old(storage)@[i],
{
    let total = storage.len();
    let mut i: usize = 0;
    while i < bytes.len()
        invariant
            i <= bytes@.len(),
            total == storage@.len(),
            at + bytes@.len() <= storage@.len(),
            storage@.len() == old(storage)@.len(),
            forall|j: int| 0 <= j < i ==> storage@[at + j] == bytes@[j],
            forall|j: int|
                0 <= j < at || at + i <= j < storage@.len() ==> storage@[j] == old(storage)@[j],
        decreases bytes@.len() - i,
    {
        storage.set(at + i, bytes[i]);
        i = i + 1;
    }
    assert(storage@.subrange(at as int, at + bytes@.len()) =~= bytes@);
}

/// Stores one value, as bytes, for each of some number of types. It acts
/// like a hash map whose keys are type tags; the tags are hashes already,
/// so the store hashes nothing itself.
///
/// Types cannot be removed once they are inserted, which lets the store
/// keep all values in one buffer that it fills front to back.
///
/// # Niche Behavior
/// - A store made for no entries and no bytes allocates on first use.
/// - Inserting the same type twice overwrites the old value.
/// - The store grows by itself, to twice the entries that it holds and
///   twice its bytes, whenever [`TypeMap::insert`] is called and the store
///   is full.
pub struct TypeMap {
    /// The buckets, with one entry for every type that has been inserted.
    entries: Buckets,
    /// The buffer used to store all the values.
    storage: Vec<u8>,
    /// How much of the storage has been used, in bytes.
    used_storage: usize,
}

impl View for TypeMap {
    type V = Map<PubTypeId, Seq<u8>>;

    /// The value of each type that the store holds.
    closed spec fn view(&self) -> Map<PubTypeId, Seq<u8>> {
        Map::new(
            |k: PubTypeId| self.entries.contains(k),
            |k: PubTypeId|
                self.storage@.subrange(
                    self.entries.offset(k),
                    self.entries.offset(k) + self.entries.size(k),
                ),
        )
    }
}

impl TypeMap {
    /// How many types the store holds.
    pub closed spec fn spec_num_entries(&self) -> int {
        self.entries.spec_taken()
    }

    /// How many buckets the store has.
    pub closed spec fn spec_available_entries(&self) -> int {
        self.entries.spec_len()
    }

    /// How many bytes of the buffer are used.
    pub closed spec fn spec_used_storage(&self) -> int {
        self.used_storage as int
    }

    /// How many bytes the buffer has.
    pub closed spec fn spec_storage_capacity(&self) -> int {
        self.storage@.len() as int
    }

    /// Where the value of `type_id` starts in the buffer.
    pub closed spec fn spec_offset(&self, type_id: PubTypeId) -> int {
        self.entries.offset(type_id)
    }

    /// The invariant of the store: the buckets are chained, and every value
    /// lies in the used part of the buffer, apart from the others.
    pub closed spec fn wf(&self) -> bool {
        &&& self.entries.wf()
        &&& self.used_storage <= self.storage@.len() <= max_allocation()
        &&& self.entries.spec_len() <= max_allocation()
        &&& forall|k: PubTypeId| #[trigger]
            self.entries.contains(k) ==> 0 <= self.entries.offset(k) && self.entries.offset(k)
                + self.entries.size(k) <= self.used_storage && 0 <= self.entries.size(k)
        &&& forall|k: PubTypeId, l: PubTypeId|
            self.entries.contains(k) && self.entries.contains(l) && k != l ==> self.entries.offset(k) + self.entries.size(k) <= #[trigger] self.entries.offset(l) || self.entries.offset(l)
                + self.entries.size(l) <= #[trigger] self.entries.offset(k)
    }

    /// What a well-formed store guarantees about its sizes.
    pub proof fn lemma_wf(&self)
        requires
            self.wf(),
        ensures
            0 <= self.spec_num_entries() <= self.spec_available_entries() <= max_allocation(),
            0 <= self.spec_used_storage() <= self.spec_storage_capacity() <= max_allocation(),
            forall|k: PubTypeId| #[trigger]
                self@.contains_key(k) ==> 0 <= self.spec_offset(k) && self.spec_offset(k)
                    + self@[k].len() <= self.spec_used_storage(),
    {
        crate::datatypes::buckets::lemma_count_bounded(self.entries.slots());
    }

    /// A store with `num_entries` buckets and `storage_capacity` bytes.
    pub fn new(num_entries: usize, storage_capacity: usize) -> (store: Self)
        requires
            num_entries <= max_allocation(),
            storage_capacity <= max_allocation(),
        ensures
            store.wf(),
            store@ == Map::<PubTypeId, Seq<u8>>::empty(),
            store.spec_num_entries() == 0,
            store.spec_available_entries() == num_entries,
            store.spec_used_storage() == 0,
            store.spec_storage_capacity() == storage_capacity,
    {
        let store = Self {
            entries: Buckets::new(num_entries),
            storage: vec![0u8; storage_capacity],
            used_storage: 0,
        };
        assert(store@ =~= Map::<PubTypeId, Seq<u8>>::empty());
        store
    }

    /// How many types the store holds.
    #[inline(always)]
    pub fn num_entries(&self) -> (n: usize)
        ensures
            n == self.spec_num_entries(),
    {
        self.entries.taken()
    }

    /// How many buckets the store has.
    #[inline(always)]
    pub fn available_entries(&self) -> (n: usize)
        ensures
            n == self.spec_available_entries(),
    {
        self.entries.len()
    }

    #[inline(always)]
    pub fn is_empty(&self) -> (empty: bool)
        ensures
            empty == (self.spec_num_entries() == 0),
    {
        self.entries.taken() == 0
    }

    /// How many bytes of the buffer are used.
    #[inline(always)]
    pub fn used_storage(&self) -> (n: usize)
        ensures
            n == self.spec_used_storage(),
    {
        self.used_storage
    }

    /// How many bytes the buffer has.
    #[inline(always)]
    pub fn storage_capacity(&self) -> (n: usize)
        ensures
            n == self.spec_storage_capacity(),
    {
        self.storage.len()
    }

    /// How many bytes of the buffer are free.
    #[inline(always)]
    pub fn unused_storage(&self) -> (n: usize)
        requires
            self.wf(),
        ensures
            n == self.spec_storage_capacity() - self.spec_used_storage(),
    {
        self.storage.len() - self.used_storage
    }

    /// Whether every bucket or every byte is taken.
    #[inline(always)]
    pub fn is_full(&self) -> (full: bool)
        ensures
            full == (self.spec_num_entries() == self.spec_available_entries()
                || self.spec_used_storage() == self.spec_storage_capacity()),
    {
        self.entries.taken() == self.entries.len() || self.used_storage == self.storage.len()
    }

    /// Whether the store holds a value of the type `type_id`.
    pub fn contains(&self, type_id: PubTypeId) -> (found: bool)
        requires
            self.wf(),
        ensures
            found == self@.contains_key(type_id),
    {
        self.get_raw(type_id).is_some()
    }

    /// Where the value of `type_id` starts in the buffer, or `None` where
    /// the store holds no value of that type.
    pub fn get_raw(&self, type_id: PubTypeId) -> (offset: Option<usize>)
        requires
            self.wf(),
        ensures
            self@.contains_key(type_id) ==> offset == Some(self.spec_offset(type_id) as usize),
            !self@.contains_key(type_id) ==> offset is None,
    {
        if self.entries.len() == 0 {
            proof {
                assert(!self.entries.contains(type_id)) by {
                    if self.entries.contains(type_id) {
                        let i = crate::datatypes::buckets::index_of(self.entries.slots(), type_id);
                        assert(crate::datatypes::buckets::holds_key(
                            self.entries.slots(),
                            type_id,
                            i,
                        ));
                    }
                }
            }
            return None;
        }
        match self.entries.find(type_id) {
            BucketIndex::Exact(idx) => {
                proof {
                    crate::datatypes::buckets::lemma_index_of(
                        self.entries.slots(),
                        self.entries.placed(),
                        type_id,
                        idx as int,
                    );
                }
                Some(self.entries.location(idx).0)
            },
            _ => None,
        }
    }

    /// The value of `type_id`, or `None` where the store holds none.
    pub fn get(&self, type_id: PubTypeId) -> (value: Option<&[u8]>)
        requires
            self.wf(),
        ensures
            self@.contains_key(type_id) ==> value is Some && value.unwrap()@ == self@[type_id],
            !self@.contains_key(type_id) ==> value is None,
    {
        if self.entries.len() == 0 {
            proof {
                assert(!self.entries.contains(type_id)) by {
                    if self.entries.contains(type_id) {
                        let i = crate::datatypes::buckets::index_of(self.entries.slots(), type_id);
                        assert(crate::datatypes::buckets::holds_key(
                            self.entries.slots(),
                            type_id,
                            i,
                        ));
                    }
                }
            }
            return None;
        }
        match self.entries.find(type_id) {
            BucketIndex::Exact(idx) => {
                proof {
                    crate::datatypes::buckets::lemma_index_of(
                        self.entries.slots(),
                        self.entries.placed(),
                        type_id,
                        idx as int,
                    );
                }
                assert(self.entries.contains(type_id));
                let (offset, size) = self.entries.location(idx);
                Some(vstd::slice::slice_subrange(self.storage.as_slice(), offset, offset + size))
            },
            _ => None,
        }
    }
}

impl TypeMap {
    /// Whether an insert of `size` bytes aligned to `align` makes the store
    /// grow first: it does where every bucket or every byte is taken, and
    /// where the value does not fit behind the used bytes.
    pub open spec fn needs_room(&self, size: int, align: int) -> bool {
        ||| self.spec_num_entries() == self.spec_available_entries()
        ||| self.spec_used_storage() == self.spec_storage_capacity()
        ||| align_up(self.spec_used_storage(), align) + size > self.spec_storage_capacity()
    }

    /// The number of buckets after an insert of `size` bytes aligned to
    /// `align`: twice the entries that the store holds where it grows.
    pub open spec fn entries_after_insert(&self, size: int, align: int) -> int {
        if self.needs_room(size, align) {
            if doubled(self.spec_num_entries()) < max_allocation() {
                doubled(self.spec_num_entries())
            } else {
                max_allocation()
            }
        } else {
            self.spec_available_entries()
        }
    }

    /// The bytes of the buffer after an insert of `size` bytes aligned to
    /// `align`: where the store grows, the buffer doubles until the value
    /// fits.
    pub open spec fn storage_after_insert(&self, size: int, align: int) -> int {
        if self.needs_room(size, align) {
            let grown = doubled_until(
                doubled(self.spec_storage_capacity()),
                align_up(self.spec_used_storage(), align) + size,
            );
            if grown < max_allocation() {
                grown
            } else {
                max_allocation()
            }
        } else {
            self.spec_storage_capacity()
        }
    }

    /// Gives the store `new_entry_capacity` buckets and a buffer of
    /// `new_storage_capacity` bytes. The values keep their offsets, and
    /// their entries are placed again among the new buckets. The new sizes
    /// must hold what the store holds.
    pub fn resize(&mut self, new_entry_capacity: usize, new_storage_capacity: usize)
        requires
            old(self).wf(),
            old(self).spec_num_entries() <= new_entry_capacity <= max_allocation(),
            old(self).spec_used_storage() <= new_storage_capacity <= max_allocation(),
        ensures
            final(self).wf(),
            final(self)@ == old(self)@,
            final(self).spec_num_entries() == old(self).spec_num_entries(),
            final(self).spec_available_entries() == new_entry_capacity,
            final(self).spec_used_storage() == old(self).spec_used_storage(),
            final(self).spec_storage_capacity() == new_storage_capacity,
            forall|k: PubTypeId| #[trigger]
                old(self)@.contains_key(k) ==> final(self).spec_offset(k) == old(self).spec_offset(k),
    {
        let entries = self.entries.resized(new_entry_capacity);
        let mut storage = vec![0u8; new_storage_capacity];
        let used = vstd::slice::slice_subrange(self.storage.as_slice(), 0, self.used_storage);
        write_bytes(&mut storage, 0, used);
        proof {
            assert forall|k: PubTypeId| #[trigger] entries.contains(k) implies storage@.subrange(
                entries.offset(k),
                entries.offset(k) + entries.size(k),
            ) == self.storage@.subrange(
                self.entries.offset(k),
                self.entries.offset(k) + self.entries.size(k),
            ) by {
                assert(self.entries.contains(k));
                let from = self.entries.offset(k);
                let to = from + self.entries.size(k);
                assert forall|i: int| from <= i < to implies storage@[i] == self.storage@[i] by {
                    assert(storage@.subrange(0, self.used_storage as int)[i] == used@[i]);
                }
                assert(storage@.subrange(from, to) =~= self.storage@.subrange(from, to));
            }
        }
        let ghost before = *self;
        self.entries = entries;
        self.storage = storage;
        proof {
            assert forall|k: PubTypeId| #[trigger] self.entries.contains(k) implies 0
                <= self.entries.offset(k) && self.entries.offset(k) + self.entries.size(k)
                <= self.used_storage && 0 <= self.entries.size(k) by {
                assert(before.entries.contains(k));
            }
            assert forall|k: PubTypeId, l: PubTypeId|
                self.entries.contains(k) && self.entries.contains(l) && k != l implies self.entries.offset(k) + self.entries.size(k) <= #[trigger] self.entries.offset(l) || self.entries.offset(l)
                + self.entries.size(l) <= #[trigger] self.entries.offset(k) by {
                assert(before.entries.contains(k));
                assert(before.entries.contains(l));
                assert(before.entries.offset(k) == self.entries.offset(k));
                assert(before.entries.offset(l) == self.entries.offset(l));
            }
            assert(self@ =~= before@);
        }
    }

    /// Whether `after` is this store after an insert of `bytes`, aligned to
    /// `align`, for `type_id`.
    pub open spec fn inserted(
        &self,
        after: Self,
        type_id: PubTypeId,
        align: int,
        bytes: Seq<u8>,
    ) -> bool {
        &&& after.wf()
        &&& after@ == self@.insert(type_id, bytes)
        &&& after.spec_num_entries() == self.spec_num_entries() + (if self@.contains_key(type_id) {
            0int
        } else {
            1int
        })
        &&& after.spec_available_entries() == self.entries_after_insert(bytes.len() as int, align)
        &&& after.spec_storage_capacity() == self.storage_after_insert(bytes.len() as int, align)
        &&& after.spec_used_storage() == (if self@.contains_key(type_id) && self@[type_id].len()
            == bytes.len() {
            self.spec_used_storage()
        } else {
            align_up(self.spec_used_storage(), align) + bytes.len()
        })
        &&& after.spec_offset(type_id) == (if self@.contains_key(type_id) && self@[type_id].len()
            == bytes.len() {
            self.spec_offset(type_id)
        } else {
            align_up(self.spec_used_storage(), align)
        })
        &&& forall|k: PubTypeId| #[trigger]
            self@.contains_key(k) && k != type_id ==> after.spec_offset(k) == self.spec_offset(k)
    }

    /// Overwrite: a second insert of a type leaves the number of entries as
    /// it was, and the store then holds the value that came last.
    pub proof fn lemma_insert_twice(
        start: Self,
        once: Self,
        twice: Self,
        type_id: PubTypeId,
        align: int,
        first: Seq<u8>,
        second: Seq<u8>,
    )
        requires
            start.inserted(once, type_id, align, first),
            once.inserted(twice, type_id, align, second),
        ensures
            twice.spec_num_entries() == once.spec_num_entries(),
            twice@.contains_key(type_id),
            twice@[type_id] == second,
            first.len() == second.len() ==> twice.spec_offset(type_id) == once.spec_offset(type_id) && twice.spec_used_storage() == once.spec_used_storage(),
    {
    }

    /// Growth keeps what was stored: after an insert, whether or not it
    /// made the store grow, every other type that the store held is still
    /// there, with the value that it had and at the offset that it had.
    pub proof fn lemma_insert_keeps_others(
        before: Self,
        after: Self,
        type_id: PubTypeId,
        align: int,
        bytes: Seq<u8>,
        other: PubTypeId,
    )
        requires
            before.inserted(after, type_id, align, bytes),
            before@.contains_key(other),
            other != type_id,
        ensures
            after@.contains_key(other),
            after@[other] == before@[other],
            after.spec_offset(other) == before.spec_offset(other),
            before.needs_room(bytes.len() as int, align) && 0 < before.spec_num_entries()
                < max_allocation() / 2 ==> after.spec_available_entries() == 2
                * before.spec_num_entries(),
    {
    }

    /// The capacity that follows `capacity` by doubling, cut off at the
    /// largest allocation.
    fn next_capacity(capacity: usize) -> (next: usize)
        requires
            capacity <= max_allocation(),
        ensures
            next == (if doubled(capacity as int) < max_allocation() {
                doubled(capacity as int)
            } else {
                max_allocation()
            }),
    {
        let most = usize::MAX / 2;
        if capacity == 0 {
            if most < 1 {
                most
            } else {
                1
            }
        } else if capacity >= most - capacity {
            most
        } else {
            capacity * 2
        }
    }

    /// Makes room, if the store needs it, for a value of `size` bytes
    /// aligned to `align`.
    fn grow_for(&mut self, size: usize, align: usize)
        requires
            old(self).wf(),
            align > 0,
            align_up(old(self).spec_used_storage(), align as int) + size < max_allocation(),
            old(self).spec_num_entries() < max_allocation(),
        ensures
            final(self).wf(),
            final(self)@ == old(self)@,
            final(self).spec_num_entries() == old(self).spec_num_entries(),
            final(self).spec_used_storage() == old(self).spec_used_storage(),
            final(self).spec_available_entries() == old(self).entries_after_insert(
                size as int,
                align as int,
            ),
            final(self).spec_storage_capacity() == old(self).storage_after_insert(
                size as int,
                align as int,
            ),
            !final(self).needs_room(size as int, align as int),
            forall|k: PubTypeId| #[trigger]
                old(self)@.contains_key(k) ==> final(self).spec_offset(k) == old(self).spec_offset(k),
    {
        proof {
            lemma_align_up(self.used_storage as int, align as int);
            self.lemma_wf();
        }
        let needed = crate::utils::align(self.used_storage, align) + size;
        if self.is_full() || needed > self.storage.len() {
            let new_entry_capacity = Self::next_capacity(self.entries.taken());
            let ghost target = self.storage_after_insert(size as int, align as int);
            let mut new_storage_capacity = Self::next_capacity(self.storage.len());
            while new_storage_capacity < needed
                invariant
                    needed < max_allocation(),
                    1 <= new_storage_capacity <= max_allocation(),
                    target == (if doubled_until(new_storage_capacity as int, needed as int)
                        < max_allocation() {
                        doubled_until(new_storage_capacity as int, needed as int)
                    } else {
                        max_allocation()
                    }),
                decreases max_allocation() - new_storage_capacity,
            {
                let ghost small = new_storage_capacity as int;
                new_storage_capacity = Self::next_capacity(new_storage_capacity);
                proof {
                    assert(doubled(small) == 2 * small);
                    assert(doubled_until(small, needed as int) == doubled_until(
                        doubled(small),
                        needed as int,
                    ));
                    if doubled(small) >= max_allocation() {
                        assert(doubled_until(doubled(small), needed as int) == doubled(small));
                        assert(doubled_until(max_allocation(), needed as int) == max_allocation());
                    }
                }
            }
            self.resize(new_entry_capacity, new_storage_capacity);
        }
    }

    /// Stores `bytes` as the value of `type_id`, aligned to `align`.
    ///
    /// The store grows first where it is full or the value does not fit.
    /// A type that the store does not hold gets an entry in its home
    /// bucket or, where that is taken, at the end of the chain that starts
    /// there, and its value goes behind the used bytes. The value of a type
    /// that the store holds is overwritten where it lies if the new value
    /// has as many bytes; else the new value goes behind the used bytes and
    /// the entry, which keeps its bucket, is pointed there.
    pub fn insert(&mut self, type_id: PubTypeId, align: usize, bytes: &[u8])
        requires
            old(self).wf(),
            align > 0,
            align_up(old(self).spec_used_storage(), align as int) + bytes@.len()
                < max_allocation(),
            old(self).spec_num_entries() < max_allocation(),
        ensures
            old(self).inserted(*final(self), type_id, align as int, bytes@),
            final(self).wf(),
            final(self)@ == old(self)@.insert(type_id, bytes@),
            final(self).spec_num_entries() == old(self).spec_num_entries() + (if old(self)@.contains_key(type_id) {
                0int
            } else {
                1int
            }),
            final(self).spec_available_entries() == old(self).entries_after_insert(
                bytes@.len() as int,
                align as int,
            ),
            final(self).spec_storage_capacity() == old(self).storage_after_insert(
                bytes@.len() as int,
                align as int,
            ),
            final(self).spec_used_storage() == (if old(self)@.contains_key(type_id) && old(self)@[type_id].len() == bytes@.len() {
                old(self).spec_used_storage()
            } else {
                align_up(old(self).spec_used_storage(), align as int) + bytes@.len()
            }),
            final(self).spec_offset(type_id) == (if old(self)@.contains_key(type_id) && old(self)@[type_id].len() == bytes@.len() {
                old(self).spec_offset(type_id)
            } else {
                align_up(old(self).spec_used_storage(), align as int)
            }),
            forall|k: PubTypeId| #[trigger]
                old(self)@.contains_key(k) && k != type_id ==> final(self).spec_offset(k) == old(self).spec_offset(k),
    {
        let size = bytes.len();
        self.grow_for(size, align);
        proof {
            lemma_align_up(self.used_storage as int, align as int);
            self.lemma_wf();
        }
        let ghost grown = *self;
        let start = crate::utils::align(self.used_storage, align);
        match self.entries.find(type_id) {
            BucketIndex::Exact(idx) => {
                proof {
                    crate::datatypes::buckets::lemma_index_of(
                        self.entries.slots(),
                        self.entries.placed(),
                        type_id,
                        idx as int,
                    );
                    assert(self.entries.contains(type_id));
                }
                let (offset, stored) = self.entries.location(idx);
                if stored == size {
                    write_bytes(&mut self.storage, offset, bytes);
                    proof {
                        grown.lemma_written(*self, type_id, offset as int, bytes@);
                    }
                } else {
                    self.entries.relocate(idx, start, size);
                    write_bytes(&mut self.storage, start, bytes);
                    self.used_storage = start + size;
                    proof {
                        grown.lemma_written(*self, type_id, start as int, bytes@);
                    }
                }
            },
            at => {
                let _ = self.entries.place(at, type_id, start, size);
                write_bytes(&mut self.storage, start, bytes);
                self.used_storage = start + size;
                proof {
                    grown.lemma_written(*self, type_id, start as int, bytes@);
                }
            },
        }
    }

    /// Whether `after` is this store with `bytes` written at `offset` for
    /// `type_id`: the other values keep their entries, and `offset` is
    /// either where the value of `type_id` was or behind the used bytes.
    spec fn written(self, after: Self, type_id: PubTypeId, offset: int, bytes: Seq<u8>) -> bool {
        &&& self.wf()
        &&& after.entries.wf()
        &&& after.entries.spec_len() == self.entries.spec_len()
        &&& after.storage@.len() == self.storage@.len()
        &&& forall|k: PubTypeId| #[trigger]
            after.entries.contains(k) <==> self.entries.contains(k) || k == type_id
        &&& forall|k: PubTypeId| #[trigger]
            self.entries.contains(k) && k != type_id ==> after.entries.offset(k)
                == self.entries.offset(k) && after.entries.size(k) == self.entries.size(k)
        &&& after.entries.offset(type_id) == offset
        &&& after.entries.size(type_id) == bytes.len()
        &&& 0 <= offset
        &&& offset + bytes.len() <= self.storage@.len()
        &&& after.storage@.subrange(offset, offset + bytes.len()) == bytes
        &&& forall|i: int|
            0 <= i < offset || offset + bytes.len() <= i < self.storage@.len()
                ==> after.storage@[i] == self.storage@[i]
        &&& ((self.entries.contains(type_id) && self.entries.offset(type_id) == offset
            && self.entries.size(type_id) == bytes.len() && after.used_storage
            == self.used_storage) || (self.used_storage <= offset && after.used_storage
            == offset + bytes.len()))
    }

    /// Whether `after` is this store with other bytes in the `size` bytes at
    /// `offset`, and nothing else changed.
    spec fn rewritten(self, after: Self, type_id: PubTypeId, offset: int, size: int) -> bool {
        &&& after.entries == self.entries
        &&& after.used_storage == self.used_storage
        &&& after.storage@.len() == self.storage@.len()
        &&& forall|i: int|
            0 <= i < offset || offset + size <= i < self.storage@.len() ==> after.storage@[i]
                == self.storage@[i]
    }

    /// What a store holds after `bytes` were written at `offset` for
    /// `type_id`, where the other values keep their entries and `offset`
    /// is either where the value of `type_id` was or behind the used
    /// bytes.
    proof fn lemma_written(self, after: Self, type_id: PubTypeId, offset: int, bytes: Seq<u8>)
        requires
            self.written(after, type_id, offset, bytes),
        ensures
            after.wf(),
            after@ == self@.insert(type_id, bytes),
    {
        assert forall|k: PubTypeId| #[trigger] after.entries.contains(k) implies 0
            <= after.entries.offset(k) && after.entries.offset(k) + after.entries.size(k)
            <= after.used_storage && 0 <= after.entries.size(k) by {
            if k != type_id {
                assert(self.entries.contains(k));
            }
        }
        assert forall|k: PubTypeId, l: PubTypeId|
            after.entries.contains(k) && after.entries.contains(l) && k != l implies after.entries.offset(k) + after.entries.size(k) <= #[trigger] after.entries.offset(l) || after.entries.offset(l)
            + after.entries.size(l) <= #[trigger] after.entries.offset(k) by {
            if k != type_id {
                assert(self.entries.contains(k));
            }
            if l != type_id {
                assert(self.entries.contains(l));
            }
            if k != type_id && l != type_id {
                assert(self.entries.offset(k) + self.entries.size(k) <= self.entries.offset(l)
                    || self.entries.offset(l) + self.entries.size(l) <= self.entries.offset(k));
            } else if self.entries.contains(type_id) && self.entries.offset(type_id) == offset {
                if k == type_id {
                    assert(self.entries.offset(k) + self.entries.size(k) <= self.entries.offset(l)
                        || self.entries.offset(l) + self.entries.size(l) <= self.entries.offset(k));
                } else {
                    assert(self.entries.offset(k) + self.entries.size(k) <= self.entries.offset(l)
                        || self.entries.offset(l) + self.entries.size(l) <= self.entries.offset(k));
                }
            }
        }
        assert forall|k: PubTypeId| #[trigger]
            self.entries.contains(k) && k != type_id implies after.storage@.subrange(
            after.entries.offset(k),
            after.entries.offset(k) + after.entries.size(k),
        ) == self.storage@.subrange(
            self.entries.offset(k),
            self.entries.offset(k) + self.entries.size(k),
        ) by {
            let from = self.entries.offset(k);
            let to = from + self.entries.size(k);
            if self.entries.contains(type_id) {
                assert(self.entries.offset(k) + self.entries.size(k) <= self.entries.offset(type_id) || self.entries.offset(type_id) + self.entries.size(type_id)
                    <= self.entries.offset(k));
            }
            assert forall|i: int| from <= i < to implies after.storage@[i] == self.storage@[i] by {}
            assert(after.storage@.subrange(from, to) =~= self.storage@.subrange(from, to));
        }
        assert(after@ =~= self@.insert(type_id, bytes)) by {
            assert forall|k: PubTypeId| after@.contains_key(k) implies #[trigger] after@[k]
                == self@.insert(type_id, bytes)[k] by {
                if k != type_id {
                    assert(self.entries.contains(k));
                }
            }
        }
    }

    /// The value of `type_id` for change in place, or `None` where the
    /// store holds none.
    pub fn get_mut(&mut self, type_id: PubTypeId) -> (value: Option<&mut [u8]>)
        requires
            old(self).wf(),
        ensures
            !old(self)@.contains_key(type_id) ==> value is None && *final(self) == *old(self),
            old(self)@.contains_key(type_id) ==> value is Some && value.unwrap()@ == old(self)@[type_id]
                && (final(value.unwrap())@.len() == value.unwrap()@.len() ==> {
                &&& final(self).wf()
                &&& final(self)@ == old(self)@.insert(type_id, final(value.unwrap())@)
                &&& final(self).spec_num_entries() == old(self).spec_num_entries()
                &&& final(self).spec_available_entries() == old(self).spec_available_entries()
                &&& final(self).spec_used_storage() == old(self).spec_used_storage()
                &&& final(self).spec_storage_capacity() == old(self).spec_storage_capacity()
            }),
    {
        if self.entries.len() == 0 {
            proof {
                assert(!self.entries.contains(type_id)) by {
                    if self.entries.contains(type_id) {
                        let i = crate::datatypes::buckets::index_of(self.entries.slots(), type_id);
                        assert(crate::datatypes::buckets::holds_key(
                            self.entries.slots(),
                            type_id,
                            i,
                        ));
                    }
                }
            }
            return None;
        }
        match self.entries.find(type_id) {
            BucketIndex::Exact(idx) => {
                proof {
                    crate::datatypes::buckets::lemma_index_of(
                        self.entries.slots(),
                        self.entries.placed(),
                        type_id,
                        idx as int,
                    );
                    assert(self.entries.contains(type_id));
                }
                let (offset, size) = self.entries.location(idx);
                let ghost before = *self;
                proof {
                    assert forall|after: TypeMap|
                        #![trigger after.wf()]
                        #![trigger after@]
                        before.rewritten(after, type_id, offset as int, size as int) implies after.wf()
                        && after@ == before@.insert(
                        type_id,
                        after.storage@.subrange(offset as int, offset + size),
                    ) && after.spec_num_entries() == before.spec_num_entries()
                        && after.spec_available_entries() == before.spec_available_entries()
                        && after.spec_used_storage() == before.spec_used_storage()
                        && after.spec_storage_capacity() == before.spec_storage_capacity() by {
                        before.lemma_written(
                            after,
                            type_id,
                            offset as int,
                            after.storage@.subrange(offset as int, offset + size),
                        );
                    }
                    assert(before.storage@.subrange(offset as int, offset + size)
                        =~= before@[type_id]);
                    assert forall|head: Seq<u8>, middle: Seq<u8>, tail: Seq<u8>|
                        head.len() == offset && middle.len() == size implies (#[trigger] (head + (
                        middle + tail))).subrange(offset as int, offset + size) == middle by {
                        assert((head + (middle + tail)).subrange(offset as int, offset + size)
                            =~= middle);
                    }
                }
                let whole = self.storage.as_mut_slice();
                let (head, rest) = { whole }.split_at_mut(offset);
                let (value, tail) = { rest }.split_at_mut(size);
                assert(final(head)@ == head@);
                assert(final(tail)@ == tail@);
                assert(final(value)@.len() == size ==> (head@ + (final(value)@ + tail@)).subrange(offset as int, offset + size) == final(value)@);
                Some(value)
            },
            _ => None,
        }
    }

    /// Removes all entries from the store. Its buckets and its buffer stay.
    pub fn clear(&mut self)
        ensures
            old(self).wf() ==> final(self).wf(),
            final(self)@ == Map::<PubTypeId, Seq<u8>>::empty(),
            final(self).spec_num_entries() == 0,
            final(self).spec_used_storage() == 0,
            final(self).spec_available_entries() == old(self).spec_available_entries(),
            final(self).spec_storage_capacity() == old(self).spec_storage_capacity(),
    {
        self.entries.clear();
        self.used_storage = 0;
        assert(self@ =~= Map::<PubTypeId, Seq<u8>>::empty());
    }
}

impl Default for TypeMap {
    #[inline(always)]
    fn default() -> (store: Self)
        ensures
            store.wf(),
            store@ == Map::<PubTypeId, Seq<u8>>::empty(),
            store.spec_num_entries() == 0,
            store.spec_available_entries() == 0,
            store.spec_used_storage() == 0,
            store.spec_storage_capacity() == 0,
    {
        Self::new(0, 0)
    }
}

} // verus!
