//! Module for [`Uniq`].

use crate::datatypes::arenavec::{ArenaVec, Error};
use crate::datatypes::buckets::{
    holds_key, index_of, lemma_count_with_gap, lemma_index_of, BucketIndex, Buckets,
};
use crate::datatypes::typemap::PubTypeId;
use vstd::prelude::*;

verus! {

/// A key for accessing a cached value from a [`Uniq`].
///
/// [`UniqKey`]s **must** be unique, as that's the only reason [`Uniq`]s
/// work: two places that use the same key share one value. To help keep
/// them apart, a [`UniqKey`] can be neither cloned nor copied.
#[derive(PartialEq, Eq, Hash, Debug)]
pub struct UniqKey(usize);

impl UniqKey {
    /// The number of the key.
    pub closed spec fn spec_key(&self) -> usize {
        self.0
    }

    /// Create a new [`UniqKey`]. The caller has to see to it that no other
    /// place of the program uses the same number.
    pub fn new(key: usize) -> (k: Self)
        ensures
            k.spec_key() == key,
    {
        Self(key)
    }

    /// The number of the key.
    pub fn key(&self) -> (key: usize)
        ensures
            key == self.spec_key(),
    {
        self.0
    }
}

/// Hashes a place in the source, and what else is to tell keys of one place
/// apart, with [`ahash::AHasher`]'s default hasher: the column, the line,
/// the file and the extra bytes, in that order. The hasher takes its keys
/// from the process that it runs in, so nothing is claimed of the number
/// that comes back.
#[verifier::external_body]
fn hash_call_site(file: &str, line: u32, column: u32, extra: &[u8]) -> (hash: u64) {
    let mut hasher = ahash::AHasher::default();
    core::hash::Hash::hash(&column, &mut hasher);
    core::hash::Hash::hash(&line, &mut hasher);
    core::hash::Hash::hash(&file, &mut hasher);
    core::hash::Hash::hash(extra, &mut hasher);
    core::hash::Hasher::finish(&hasher)
}

/// The key that stands for a hash: the hash, folded into the numbers below
/// the largest `usize`.
pub fn key_from_hash(hash: u64) -> (key: UniqKey)
    ensures
        key.spec_key() == hash as int % usize::MAX as int,
{
    let most = usize::MAX as u64;
    UniqKey((hash % most) as usize)
}

/// Generates a [`UniqKey`] from the file, the line and the column of a
/// place in the source, and from extra bytes that tell apart the keys that
/// one place makes.
///
/// The same place gives the same key every time it is reached in one run of
/// the program, and two places give two keys but for an accident of the
/// hash. A key that is made inside a helper function stands for the place in
/// that helper, not for the places that call it: callers that get their key
/// from one helper share one value.
pub fn uniq_key(file: &str, line: u32, column: u32, extra: &[u8]) -> (key: UniqKey)
    ensures
        key.spec_key() < usize::MAX,
{
    key_from_hash(hash_call_site(file, line, column, extra))
}

/// The tag under which a store files the key `key`.
pub open spec fn tag(key: usize) -> PubTypeId {
    PubTypeId { val: (key as u64, 0) }
}

/// A data structure for caching data under a [`UniqKey`] and finding it
/// again later: a place in the code asks for the value of its key, gets a
/// default the first time, and finds what it left there every time after.
///
/// The values are kept as bytes in one arena, in the order in which they
/// came, and never move.
pub struct Uniq {
    /// The bytes of all values.
    data: ArenaVec<u8>,
    /// The buckets, with one entry for every key that has a value.
    entries: Buckets,
}

impl View for Uniq {
    type V = Map<usize, Seq<u8>>;

    /// The value of each key that the store holds.
    closed spec fn view(&self) -> Map<usize, Seq<u8>> {
        Map::new(
            |k: usize| self.entries.contains(tag(k)),
            |k: usize|
                self.data@.subrange(
                    self.entries.offset(tag(k)),
                    self.entries.offset(tag(k)) + self.entries.size(tag(k)),
                ),
        )
    }
}

impl Uniq {
    /// How many buckets the store has.
    pub closed spec fn spec_capacity(&self) -> int {
        self.entries.spec_len()
    }

    /// How many keys have a value.
    pub closed spec fn spec_used_entries(&self) -> int {
        self.entries.spec_taken()
    }

    /// Where the value of `key` starts in the arena.
    pub closed spec fn spec_offset(&self, key: usize) -> int {
        self.entries.offset(tag(key))
    }

    /// How many bytes the arena holds.
    pub closed spec fn spec_data_len(&self) -> int {
        self.data@.len() as int
    }

    /// How many bytes the arena reserved.
    pub closed spec fn spec_data_size(&self) -> int {
        self.data.spec_reserved_memory()
    }

    /// The arena takes bytes up to its reservation.
    proof fn lemma_room(&self, count: nat)
        requires
            self.wf(),
        ensures
            self.data.fitting_pushes(count) == count <==> self.spec_data_len() + count
                <= self.spec_data_size(),
    {
        broadcast use vstd::layout::layout_of_primitives;

        self.data.lemma_room(count);
        assert(count * ArenaVec::<u8>::elem_size() == count) by (nonlinear_arith)
            requires
                ArenaVec::<u8>::elem_size() == 1,
        ;
        assert(self.data@.len() * ArenaVec::<u8>::elem_size() == self.data@.len())
            by (nonlinear_arith)
            requires
                ArenaVec::<u8>::elem_size() == 1,
        ;
    }

    /// The invariant of the store: the buckets are chained, and every value
    /// lies in the arena, apart from the others.
    pub closed spec fn wf(&self) -> bool {
        &&& self.data.wf()
        &&& self.entries.wf()
        &&& forall|k: PubTypeId| #[trigger]
            self.entries.contains(k) ==> {
                &&& k == tag(k.val.0 as usize)
                &&& 0 <= self.entries.offset(k)
                &&& 0 <= self.entries.size(k)
                &&& self.entries.offset(k) + self.entries.size(k) <= self.data@.len()
            }
        &&& forall|k: PubTypeId, l: PubTypeId|
            self.entries.contains(k) && self.entries.contains(l) && k != l ==> self.entries.offset(k)
                + self.entries.size(k) <= #[trigger] self.entries.offset(l) || self.entries.offset(l)
                + self.entries.size(l) <= #[trigger] self.entries.offset(k)
    }

    /// Create a [`Uniq`] with `cap` buckets.
    pub fn with_capacity(cap: usize) -> (store: Self)
        ensures
            store.wf(),
            store@ == Map::<usize, Seq<u8>>::empty(),
            store.spec_capacity() == cap,
            store.spec_used_entries() == 0,
            store.spec_data_len() == 0,
            store.spec_data_size() == ArenaVec::<u8>::spec_default_reserved_memory(),
    {
        proof {
            broadcast use vstd::layout::layout_of_primitives;

        }
        let store = Self { data: ArenaVec::new(), entries: Buckets::new(cap) };
        assert(store@ =~= Map::<usize, Seq<u8>>::empty());
        store
    }

    /// How many buckets the store has.
    pub fn capacity(&self) -> (cap: usize)
        ensures
            cap == self.spec_capacity(),
    {
        self.entries.len()
    }

    /// How many keys have a value.
    pub fn used_entries(&self) -> (used: usize)
        ensures
            used == self.spec_used_entries(),
    {
        self.entries.taken()
    }
}

impl Uniq {
    /// Whether `after` is this store with `bytes` as the value of `key` at
    /// `offset`: the other values keep their entries and their bytes, and
    /// `offset` is either where the value of `key` was or behind what the
    /// arena held.
    spec fn stored(self, after: Self, key: usize, offset: int, bytes: Seq<u8>) -> bool {
        &&& self.wf()
        &&& after.data.wf()
        &&& after.entries.wf()
        &&& forall|k: PubTypeId| #[trigger]
            after.entries.contains(k) <==> self.entries.contains(k) || k == tag(key)
        &&& forall|k: PubTypeId| #[trigger]
            self.entries.contains(k) && k != tag(key) ==> after.entries.offset(k)
                == self.entries.offset(k) && after.entries.size(k) == self.entries.size(k)
        &&& after.entries.offset(tag(key)) == offset
        &&& after.entries.size(tag(key)) == bytes.len()
        &&& 0 <= offset
        &&& offset + bytes.len() <= after.data@.len()
        &&& self.data@.len() <= after.data@.len()
        &&& after.data@.subrange(offset, offset + bytes.len()) == bytes
        &&& forall|i: int|
            0 <= i < self.data@.len() && !(offset <= i < offset + bytes.len()) ==> after.data@[i]
                == self.data@[i]
        &&& ((self.entries.contains(tag(key)) && self.entries.offset(tag(key)) == offset
            && self.entries.size(tag(key)) == bytes.len()) || self.data@.len() <= offset)
    }

    /// What a store holds after `bytes` were stored at `offset` for `key`.
    proof fn lemma_stored(self, after: Self, key: usize, offset: int, bytes: Seq<u8>)
        requires
            self.stored(after, key, offset, bytes),
        ensures
            after.wf(),
            after@ == self@.insert(key, bytes),
    {
        let t = tag(key);
        assert forall|k: PubTypeId| #[trigger] after.entries.contains(k) implies {
            &&& k == tag(k.val.0 as usize)
            &&& 0 <= after.entries.offset(k)
            &&& 0 <= after.entries.size(k)
            &&& after.entries.offset(k) + after.entries.size(k) <= after.data@.len()
        } by {
            if k != t {
                assert(self.entries.contains(k));
            }
        }
        assert forall|k: PubTypeId, l: PubTypeId|
            after.entries.contains(k) && after.entries.contains(l) && k != l implies after.entries.offset(k) + after.entries.size(k) <= #[trigger] after.entries.offset(l) || after.entries.offset(l)
            + after.entries.size(l) <= #[trigger] after.entries.offset(k) by {
            if k != t {
                assert(self.entries.contains(k));
            }
            if l != t {
                assert(self.entries.contains(l));
            }
            if k != t && l != t {
                assert(self.entries.offset(k) + self.entries.size(k) <= self.entries.offset(l)
                    || self.entries.offset(l) + self.entries.size(l) <= self.entries.offset(k));
            } else if self.entries.contains(t) && self.entries.offset(t) == offset {
                assert(self.entries.offset(k) + self.entries.size(k) <= self.entries.offset(l)
                    || self.entries.offset(l) + self.entries.size(l) <= self.entries.offset(k));
            }
        }
        assert forall|k: PubTypeId| #[trigger]
            self.entries.contains(k) && k != t implies after.data@.subrange(
            after.entries.offset(k),
            after.entries.offset(k) + after.entries.size(k),
        ) == self.data@.subrange(
            self.entries.offset(k),
            self.entries.offset(k) + self.entries.size(k),
        ) by {
            let from = self.entries.offset(k);
            let to = from + self.entries.size(k);
            if self.entries.contains(t) {
                assert(self.entries.offset(k) + self.entries.size(k) <= self.entries.offset(t)
                    || self.entries.offset(t) + self.entries.size(t) <= self.entries.offset(k));
            }
            assert forall|i: int| from <= i < to implies after.data@[i] == self.data@[i] by {}
            assert(after.data@.subrange(from, to) =~= self.data@.subrange(from, to));
        }
        assert(after@ =~= self@.insert(key, bytes)) by {
            assert forall|k: usize| after@.contains_key(k) <==> self@.insert(key, bytes).contains_key(k) by {
                if tag(k) == t {
                    assert(k as u64 == key as u64);
                }
            }
            assert forall|k: usize| after@.contains_key(k) implies #[trigger] after@[k]
                == self@.insert(key, bytes)[k] by {
                if k != key {
                    assert(tag(k) != t) by {
                        if tag(k) == t {
                            assert(k as u64 == key as u64);
                        }
                    }
                    assert(self.entries.contains(tag(k)));
                }
            }
        }
    }

    /// Whether `after` is this store with other bytes in the `size` bytes at
    /// `offset`, and nothing else changed.
    spec fn rewritten(self, after: Self, offset: int, size: int) -> bool {
        &&& after.entries == self.entries
        &&& after.data.wf()
        &&& after.data.spec_capacity() == self.data.spec_capacity()
        &&& after.data.spec_reserved_memory() == self.data.spec_reserved_memory()
        &&& after.data.spec_page_size() == self.data.spec_page_size()
        &&& after.data@.len() == self.data@.len()
        &&& forall|i: int|
            0 <= i < offset || offset + size <= i < self.data@.len() ==> after.data@[i]
                == self.data@[i]
    }

    /// The bytes of the value of `key`, which the store holds at `offset`,
    /// for change in place.
    fn value_mut(&mut self, Ghost(key): Ghost<usize>, offset: usize, size: usize) -> (value:
        &mut [u8])
        requires
            old(self).wf(),
            old(self).entries.contains(tag(key)),
            old(self).entries.offset(tag(key)) == offset,
            old(self).entries.size(tag(key)) == size,
        ensures
            value@ == old(self)@[key],
            final(value)@.len() == value@.len() ==> {
                &&& final(self).wf()
                &&& final(self)@ == old(self)@.insert(key, final(value)@)
                &&& final(self).entries == old(self).entries
                &&& final(self).data@.len() == old(self).data@.len()
                &&& final(self).data.spec_capacity() == old(self).data.spec_capacity()
                &&& final(self).data.spec_reserved_memory() == old(self).data.spec_reserved_memory()
                &&& final(self).data.spec_page_size() == old(self).data.spec_page_size()
            },
    {
        let ghost before = *self;
        proof {
            assert forall|after: Uniq|
                #![trigger after.wf()]
                #![trigger after@]
                before.rewritten(after, offset as int, size as int) implies after.wf() && after@
                == before@.insert(key, after.data@.subrange(offset as int, offset + size)) by {
                before.lemma_stored(
                    after,
                    key,
                    offset as int,
                    after.data@.subrange(offset as int, offset + size),
                );
            }
            assert(before.data@.subrange(offset as int, offset + size) =~= before@[key]);
            assert forall|head: Seq<u8>, middle: Seq<u8>, tail: Seq<u8>|
                head.len() == offset && middle.len() == size implies (#[trigger] (head + (middle
                + tail))).subrange(offset as int, offset + size) == middle by {
                assert((head + (middle + tail)).subrange(offset as int, offset + size) =~= middle);
            }
        }
        let whole = self.data.as_mut_slice();
        let (head, rest) = { whole }.split_at_mut(offset);
        let (value, tail) = { rest }.split_at_mut(size);
        assert(final(head)@ == head@);
        assert(final(tail)@ == tail@);
        value
    }
}

impl Uniq {
    /// Whether the bucket at which the search for `key` starts holds an
    /// entry.
    pub closed spec fn home_taken(&self, key: usize) -> bool {
        self.entries.spec_len() > 0 && self.entries.slots()[key as int
            % self.entries.spec_len()] is Some
    }

    /// Whether a first value for `key` makes the store double its buckets:
    /// it does where the home bucket of the key is taken and no bucket is
    /// free.
    pub open spec fn must_grow(&self, key: usize) -> bool {
        !self@.contains_key(key) && self.home_taken(key) && self.spec_used_entries()
            == self.spec_capacity()
    }

    /// Whether the store can take a first value of `size` bytes for `key`:
    /// the bytes fit in what the arena reserved, and the buckets can be
    /// doubled where they have to be.
    pub open spec fn can_store(&self, key: usize, size: nat) -> bool {
        &&& self.spec_data_len() + size <= self.spec_data_size()
        &&& self.must_grow(key) ==> self.spec_capacity() <= usize::MAX / 2
    }

    /// The value of `key` for change in place. Where the store holds none,
    /// what `default` returns becomes the value of the key first, unless
    /// the store cannot take it.
    ///
    /// A new value goes behind the bytes that the arena holds. Its entry
    /// goes in the home bucket of the key or, where that is taken, in the
    /// first free bucket, linked to the end of the chain that starts at the
    /// home bucket; where no bucket is free, the store first doubles its
    /// buckets and places every entry again.
    pub fn try_get<F: FnOnce() -> Vec<u8>>(&mut self, key: UniqKey, default: F) -> (r: Result<
        &mut [u8],
        Error,
    >)
        requires
            old(self).wf(),
            old(self).spec_capacity() > 0,
            !old(self)@.contains_key(key.spec_key()) ==> call_requires(default, ()),
        ensures
            old(self)@.contains_key(key.spec_key()) ==> r is Ok && r.unwrap()@ == old(self)@[key.spec_key()] && (final(r.unwrap())@.len() == r.unwrap()@.len() ==> {
                &&& final(self).wf()
                &&& final(self)@ == old(self)@.insert(key.spec_key(), final(r.unwrap())@)
                &&& final(self).spec_capacity() == old(self).spec_capacity()
                &&& final(self).spec_used_entries() == old(self).spec_used_entries()
                &&& final(self).spec_data_len() == old(self).spec_data_len()
                &&& final(self).spec_data_size() == old(self).spec_data_size()
                &&& final(self).spec_offset(key.spec_key()) == old(self).spec_offset(key.spec_key())
            }),
            !old(self)@.contains_key(key.spec_key()) ==> exists|first: Vec<u8>|
                {
                    &&& #[trigger] call_ensures(default, (), first)
                    &&& (r is Ok <==> old(self).can_store(key.spec_key(), first@.len()))
                    &&& match r {
                        Ok(value) => value@ == first@ && (final(value)@.len() == value@.len() ==> {
                            &&& final(self).wf()
                            &&& final(self)@ == old(self)@.insert(key.spec_key(), final(value)@)
                            &&& final(self).spec_capacity() == (if old(self).must_grow(key.spec_key()) {
                                2 * old(self).spec_capacity()
                            } else {
                                old(self).spec_capacity()
                            })
                            &&& final(self).spec_used_entries() == old(self).spec_used_entries()
                                + 1
                            &&& final(self).spec_data_len() == old(self).spec_data_len()
                                + first@.len()
                            &&& final(self).spec_data_size() == old(self).spec_data_size()
                            &&& final(self).spec_offset(key.spec_key()) == old(self).spec_data_len()
                        }),
                        Err(e) => e == Error::OutOfMemoryAddresses && final(self).wf() && final(self)@ == old(self)@,
                    }
                },
    {
        let k = key.0;
        let t = PubTypeId { val: (k as u64, 0) };
        let ghost before = *self;
        let found = self.entries.find(t);
        proof {
            assert((k as u64) as usize == k);
        }
        match found {
            BucketIndex::Exact(idx) => {
                proof {
                    lemma_index_of(self.entries.slots(), self.entries.placed(), t, idx as int);
                    assert(self.entries.contains(t));
                }
                let (offset, size) = self.entries.location(idx);
                Ok(self.value_mut(Ghost(k), offset, size))
            },
            _ => {
                let first = default();
                let buckets = self.entries.len();
                proof {
                    crate::datatypes::buckets::lemma_count_bounded(self.entries.slots());
                    match found {
                        BucketIndex::Vacant(idx) => {
                            lemma_count_with_gap(self.entries.slots(), idx as int);
                        },
                        _ => {},
                    }
                }
                let full = match found {
                    BucketIndex::Collision(_) => self.entries.taken() == buckets,
                    _ => false,
                };
                proof {
                    assert(t == tag(k));
                    match found {
                        BucketIndex::Collision(idx) => {
                            crate::datatypes::buckets::lemma_reaches_start(
                                self.entries.slots(),
                                self.entries.placed(),
                                crate::datatypes::buckets::home(t, self.entries.spec_len()),
                                idx as int,
                            );
                        },
                        _ => {},
                    }
                    assert(full == before.must_grow(k));
                }
                if full && buckets > usize::MAX / 2 {
                    return Err(Error::OutOfMemoryAddresses);
                }
                let offset = self.data.len();
                proof {
                    self.lemma_room(first@.len());
                }
                match self.data.try_extend_from_slice(first.as_slice()) {
                    Ok(()) => {},
                    Err(e) => {
                        proof {
                            before.lemma_appended(*self);
                        }
                        return Err(e);
                    },
                }
                proof {
                    before.lemma_appended(*self);
                    assert(self.data@.subrange(offset as int, offset + first@.len()) =~= first@) by {
                        assert forall|i: int| 0 <= i < first@.len() implies self.data@[offset + i]
                            == first@[i] by {
                            assert(cloned(first@[i], self.data@[offset + i]));
                        }
                    }
                }
                let ghost filled = *self;
                let at = if full {
                    self.entries = self.entries.resized(buckets * 2);
                    proof {
                        filled.lemma_regrouped(*self);
                    }
                    let again = self.entries.find(t);
                    proof {
                        match again {
                            BucketIndex::Vacant(idx) => {},
                            BucketIndex::Exact(idx) => {
                                assert(self.entries.contains(t));
                            },
                            _ => {},
                        }
                    }
                    again
                } else {
                    found
                };
                let ghost regrouped = *self;
                let _ = self.entries.place(at, t, offset, first.len());
                proof {
                    assert forall|c: PubTypeId| #[trigger]
                        self.entries.contains(c) <==> before.entries.contains(c) || c == t by {
                        assert(regrouped.entries.contains(c) <==> before.entries.contains(c));
                    }
                    assert forall|c: PubTypeId| #[trigger]
                        before.entries.contains(c) && c != t implies self.entries.offset(c)
                        == before.entries.offset(c) && self.entries.size(c)
                        == before.entries.size(c) by {
                        assert(regrouped.entries.contains(c));
                    }
                    assert forall|i: int| 0 <= i < before.data@.len() implies self.data@[i]
                        == before.data@[i] by {
                        assert(self.data@.take(before.data@.len() as int)[i] == self.data@[i]);
                    }
                    before.lemma_stored(*self, k, offset as int, first@);
                    assert(self.entries.contains(t));
                }
                Ok(self.value_mut(Ghost(k), offset, first.len()))
            },
        }
    }

    /// Get a cached value with a [`UniqKey`], or supply a default value if
    /// there isn't one cached. The store must be able to take the default.
    pub fn get<F: FnOnce() -> Vec<u8>>(&mut self, key: UniqKey, default: F) -> (value: &mut [u8])
        requires
            old(self).wf(),
            old(self).spec_capacity() > 0,
            !old(self)@.contains_key(key.spec_key()) ==> call_requires(default, ()),
            !old(self)@.contains_key(key.spec_key()) ==> forall|first: Vec<u8>|
                call_ensures(default, (), first) ==> old(self).can_store(key.spec_key(), first@.len()),
        ensures
            old(self)@.contains_key(key.spec_key()) ==> value@ == old(self)@[key.spec_key()] && (
            final(value)@.len() == value@.len() ==> {
                &&& final(self).wf()
                &&& final(self)@ == old(self)@.insert(key.spec_key(), final(value)@)
                &&& final(self).spec_capacity() == old(self).spec_capacity()
                &&& final(self).spec_used_entries() == old(self).spec_used_entries()
                &&& final(self).spec_data_len() == old(self).spec_data_len()
                &&& final(self).spec_data_size() == old(self).spec_data_size()
                &&& final(self).spec_offset(key.spec_key()) == old(self).spec_offset(key.spec_key())
            }),
            !old(self)@.contains_key(key.spec_key()) ==> exists|first: Vec<u8>|
                {
                    &&& #[trigger] call_ensures(default, (), first)
                    &&& value@ == first@
                    &&& final(value)@.len() == value@.len() ==> {
                        &&& final(self).wf()
                        &&& final(self)@ == old(self)@.insert(key.spec_key(), final(value)@)
                        &&& final(self).spec_capacity() == (if old(self).must_grow(key.spec_key()) {
                            2 * old(self).spec_capacity()
                        } else {
                            old(self).spec_capacity()
                        })
                        &&& final(self).spec_used_entries() == old(self).spec_used_entries() + 1
                        &&& final(self).spec_data_len() == old(self).spec_data_len()
                            + first@.len()
                        &&& final(self).spec_data_size() == old(self).spec_data_size()
                        &&& final(self).spec_offset(key.spec_key()) == old(self).spec_data_len()
                    }
                },
    {
        match self.try_get(key, default) {
            Ok(value) => value,
            Err(_) => vstd::pervasive::unreached(),
        }
    }

    /// Get a cached value for a [`UniqKey`], or store `size` zero bytes, the
    /// default of a plain value of that size, if there's no cached value.
    pub fn get_or_default(&mut self, key: UniqKey, size: usize) -> (value: &mut [u8])
        requires
            old(self).wf(),
            old(self).spec_capacity() > 0,
            !old(self)@.contains_key(key.spec_key()) ==> old(self).can_store(key.spec_key(), size as nat),
        ensures
            value@ == (if old(self)@.contains_key(key.spec_key()) {
                old(self)@[key.spec_key()]
            } else {
                Seq::new(size as nat, |i: int| 0u8)
            }),
            final(value)@.len() == value@.len() ==> {
                &&& final(self).wf()
                &&& final(self)@ == old(self)@.insert(key.spec_key(), final(value)@)
                &&& final(self).spec_capacity() == (if old(self).must_grow(key.spec_key()) {
                    2 * old(self).spec_capacity()
                } else {
                    old(self).spec_capacity()
                })
                &&& final(self).spec_used_entries() == old(self).spec_used_entries() + (if old(self)@.contains_key(key.spec_key()) {
                    0int
                } else {
                    1int
                })
                &&& final(self).spec_offset(key.spec_key()) == (if old(self)@.contains_key(key.spec_key()) {
                    old(self).spec_offset(key.spec_key())
                } else {
                    old(self).spec_data_len()
                })
                &&& final(self).spec_data_len() == old(self).spec_data_len() + (if old(self)@.contains_key(key.spec_key()) {
                    0int
                } else {
                    size as int
                })
                &&& final(self).spec_data_size() == old(self).spec_data_size()
            },
    {
        let zeroed = || -> (bytes: Vec<u8>)
            ensures
                bytes@ == Seq::new(size as nat, |i: int| 0u8),
            {
                let bytes = vec![0u8; size];
                assert(bytes@ =~= Seq::new(size as nat, |i: int| 0u8));
                bytes
            };
        self.get(key, zeroed)
    }

    /// Whether `after` is this store after a place in the code got the
    /// value of `key` and left `left` there.
    pub open spec fn visited(&self, after: Self, key: usize, left: Seq<u8>) -> bool {
        &&& after.wf()
        &&& after@ == self@.insert(key, left)
        &&& after.spec_offset(key) == (if self@.contains_key(key) {
            self.spec_offset(key)
        } else {
            self.spec_data_len()
        })
    }

    /// Persistence: what one visit leaves as the value of a key is what the
    /// next visit of that key finds, at the same place of the arena, and
    /// what is left then is what the store holds after both.
    pub proof fn lemma_second_visit(
        start: Self,
        once: Self,
        twice: Self,
        key: usize,
        first: Seq<u8>,
        second: Seq<u8>,
    )
        requires
            start.visited(once, key, first),
            once.visited(twice, key, second),
        ensures
            once@.contains_key(key),
            once@[key] == first,
            twice.spec_offset(key) == once.spec_offset(key),
            twice@[key] == second,
            twice@ == start@.insert(key, second),
    {
        assert(twice@ =~= start@.insert(key, second));
    }

    /// The value of `key`, or `None` where the store holds none.
    pub fn peek(&self, key: &UniqKey) -> (value: Option<&[u8]>)
        requires
            self.wf(),
        ensures
            self@.contains_key(key.spec_key()) ==> value is Some && value.unwrap()@
                == self@[key.spec_key()],
            !self@.contains_key(key.spec_key()) ==> value is None,
    {
        let k = key.0;
        let t = PubTypeId { val: (k as u64, 0) };
        proof {
            assert(t == tag(k));
        }
        if self.entries.len() == 0 {
            proof {
                if self.entries.contains(t) {
                    let i = index_of(self.entries.slots(), t);
                    assert(holds_key(self.entries.slots(), t, i));
                }
            }
            return None;
        }
        match self.entries.find(t) {
            BucketIndex::Exact(idx) => {
                proof {
                    lemma_index_of(self.entries.slots(), self.entries.placed(), t, idx as int);
                    assert(self.entries.contains(t));
                }
                let (offset, size) = self.entries.location(idx);
                let total = self.data.len();
                Some(vstd::slice::slice_subrange(self.data.as_slice(), offset, offset + size))
            },
            _ => None,
        }
    }

    /// A store whose arena only grew holds what it held.
    proof fn lemma_appended(self, after: Self)
        requires
            self.wf(),
            after.data.wf(),
            after.entries == self.entries,
            self.data@.len() <= after.data@.len(),
            after.data@.take(self.data@.len() as int) == self.data@,
        ensures
            after.wf(),
            after@ == self@,
    {
        assert forall|k: PubTypeId| #[trigger] self.entries.contains(k) implies after.data@.subrange(
            after.entries.offset(k),
            after.entries.offset(k) + after.entries.size(k),
        ) == self.data@.subrange(
            self.entries.offset(k),
            self.entries.offset(k) + self.entries.size(k),
        ) by {
            let from = self.entries.offset(k);
            let to = from + self.entries.size(k);
            assert forall|i: int| from <= i < to implies after.data@[i] == self.data@[i] by {
                assert(after.data@.take(self.data@.len() as int)[i] == after.data@[i]);
            }
            assert(after.data@.subrange(from, to) =~= self.data@.subrange(from, to));
        }
        assert(after@ =~= self@) by {
            assert forall|k: usize| after@.contains_key(k) implies #[trigger] after@[k]
                == self@[k] by {
                assert(self.entries.contains(tag(k)));
            }
        }
    }

    /// A store whose entries were placed again holds what it held.
    proof fn lemma_regrouped(self, after: Self)
        requires
            self.wf(),
            after.data == self.data,
            after.entries.wf(),
            forall|k: PubTypeId| #[trigger] after.entries.contains(k) <==> self.entries.contains(k),
            forall|k: PubTypeId| #[trigger]
                self.entries.contains(k) ==> after.entries.offset(k) == self.entries.offset(k)
                    && after.entries.size(k) == self.entries.size(k),
        ensures
            after.wf(),
            after@ == self@,
    {
        assert forall|k: PubTypeId| #[trigger] after.entries.contains(k) implies {
            &&& k == tag(k.val.0 as usize)
            &&& 0 <= after.entries.offset(k)
            &&& 0 <= after.entries.size(k)
            &&& after.entries.offset(k) + after.entries.size(k) <= after.data@.len()
        } by {
            assert(self.entries.contains(k));
        }
        assert forall|k: PubTypeId, l: PubTypeId|
            after.entries.contains(k) && after.entries.contains(l) && k != l implies after.entries.offset(k) + after.entries.size(k) <= #[trigger] after.entries.offset(l) || after.entries.offset(l)
            + after.entries.size(l) <= #[trigger] after.entries.offset(k) by {
            assert(self.entries.contains(k));
            assert(self.entries.contains(l));
            assert(self.entries.offset(k) + self.entries.size(k) <= self.entries.offset(l)
                || self.entries.offset(l) + self.entries.size(l) <= self.entries.offset(k));
        }
        assert(after@ =~= self@) by {
            assert forall|k: usize| after@.contains_key(k) implies #[trigger] after@[k]
                == self@[k] by {
                assert(self.entries.contains(tag(k)));
            }
        }
    }
}

impl Default for Uniq {
    fn default() -> (store: Self)
        ensures
            store.wf(),
            store@ == Map::<usize, Seq<u8>>::empty(),
            store.spec_capacity() == 4,
            store.spec_used_entries() == 0,
            store.spec_data_len() == 0,
            store.spec_data_size() == ArenaVec::<u8>::spec_default_reserved_memory(),
    {
        Self::with_capacity(4)
    }
}

} // verus!
