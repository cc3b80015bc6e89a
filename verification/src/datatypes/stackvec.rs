//! Module for [`StackVec`].

use vstd::prelude::*;

verus! {

/// An empty slot.
fn empty_slot<T>() -> (slot: Option<T>)
    ensures
        slot is None,
{
    None
}

/// An array of `SIZE` empty slots.
///
/// Wraps [`core::array::from_fn`], which calls its closure once for every
/// index and puts what it returns at that index; the closure here returns
/// an empty slot every time.
#[verifier::external_body]
fn empty_slots<T, const SIZE: usize>() -> (slots: [Option<T>; SIZE])
    ensures
        forall|i: int| 0 <= i < SIZE ==> (#[trigger] slots@[i]) is None,
{
    core::array::from_fn(|_i: usize| empty_slot())
}

/// The number of elements that `vec` can hold without allocating again.
///
/// Wraps [`Vec::capacity`], of which the standard library promises that it
/// is at least the length of the vector.
#[verifier::external_body]
fn vec_capacity<T>(vec: &Vec<T>) -> (capacity: usize)
    ensures
        capacity >= vec@.len(),
{
    vec.capacity()
}

/// A vector whose first few items are in a stack-based array.
///
/// The stackvec stores `SIZE` items in an array on the stack, and stores
/// any additional items that are pushed to it in a regular [`Vec`]. Unless
/// [`StackVec::with_capacity`] is used, the stackvec will not allocate on
/// the heap until its array has been filled.
pub struct StackVec<T, const SIZE: usize> {
    stack: [Option<T>; SIZE],
    vec: Vec<T>,
    len: usize,
}

impl<T, const SIZE: usize> View for StackVec<T, SIZE> {
    type V = Seq<T>;

    /// The elements, those of the array first.
    closed spec fn view(&self) -> Seq<T> {
        Seq::new(
            self.len as nat,
            |i: int|
                if i < SIZE {
                    self.stack@[i].unwrap()
                } else {
                    self.vec@[i - SIZE]
                },
        )
    }
}

impl<T, const SIZE: usize> StackVec<T, SIZE> {
    /// The invariant of a stackvec: the first `SIZE` elements fill the
    /// array from its start, and the vector holds the others.
    pub closed spec fn wf(&self) -> bool {
        &&& forall|i: int| 0 <= i < self.len && i < SIZE ==> (#[trigger] self.stack@[i]) is Some
        &&& self.vec@.len() == (if self.len > SIZE {
            self.len - SIZE
        } else {
            0
        })
    }

    pub fn new() -> (sv: Self)
        ensures
            sv.wf(),
            sv@.len() == 0,
    {
        Self { stack: empty_slots(), vec: Vec::new(), len: 0 }
    }

    /// Create a [`StackVec`] with the given capacity. This capacity includes
    /// `SIZE`, and thus the stackvec won't allocate unless the given
    /// capacity is larger than `SIZE`.
    pub fn with_capacity(cap: usize) -> (sv: Self)
        requires
            cap >= SIZE,
        ensures
            sv.wf(),
            sv@.len() == 0,
    {
        Self { stack: empty_slots(), vec: Vec::with_capacity(cap - SIZE), len: 0 }
    }

    /// Push a value to the [`StackVec`].
    pub fn push(&mut self, val: T)
        requires
            old(self).wf(),
            old(self)@.len() < usize::MAX,
        ensures
            final(self).wf(),
            final(self)@ == old(self)@.push(val),
    {
        if self.len < SIZE {
            self.stack[self.len] = Some(val);
        } else {
            self.vec.push(val);
        }
        self.len = self.len + 1;
        assert(self@ =~= old(self)@.push(val));
    }

    pub fn get(&self, idx: usize) -> (r: Option<&T>)
        requires
            self.wf(),
        ensures
            idx < self@.len() ==> r == Some(&self@[idx as int]),
            idx >= self@.len() ==> r is None,
    {
        if idx >= self.len {
            None
        } else if idx < SIZE {
            self.stack[idx].as_ref()
        } else {
            Some(&self.vec[idx - SIZE])
        }
    }

    pub fn get_mut(&mut self, idx: usize) -> (r: Option<&mut T>)
        requires
            old(self).wf(),
        ensures
            final(self).wf(),
            idx >= old(self)@.len() ==> r is None && final(self)@ == old(self)@,
            idx < old(self)@.len() ==> r is Some && *r.unwrap() == old(self)@[idx as int] && final(self)@ == old(self)@.update(idx as int, *final(r.unwrap())),
    {
        if idx >= self.len {
            None
        } else if idx < SIZE {
            let ghost before = *self;
            proof {
                assert forall|after: Self|
                    #![trigger after.wf()]
                    #![trigger after@]
                    after.len == before.len && after.vec == before.vec && after.stack@[idx as int] is Some
                        && after.stack@ == before.stack@.update(
                        idx as int,
                        after.stack@[idx as int],
                    ) implies after.wf() && after@ == before@.update(
                    idx as int,
                    after.stack@[idx as int].unwrap(),
                ) by {
                    assert(after@ =~= before@.update(
                        idx as int,
                        after.stack@[idx as int].unwrap(),
                    ));
                }
            }
            self.stack[idx].as_mut()
        } else {
            let ghost before = *self;
            proof {
                assert forall|after: Self|
                    #![trigger after.wf()]
                    #![trigger after@]
                    after.len == before.len && after.stack == before.stack && after.vec@
                        == before.vec@.update(idx - SIZE, after.vec@[idx - SIZE]) implies after.wf()
                    && after@ == before@.update(idx as int, after.vec@[idx - SIZE]) by {
                    assert(after@ =~= before@.update(idx as int, after.vec@[idx - SIZE]));
                }
            }
            Some(&mut self.vec[idx - SIZE])
        }
    }

    /// The total capacity of the [`StackVec`]. This is a sum of the
    /// capacity of its heap-based vector and `SIZE` (the size of its
    /// stack-based array), or the largest `usize` where the sum is larger.
    pub fn capacity(&self) -> (capacity: usize)
        requires
            self.wf(),
        ensures
            capacity >= self@.len(),
            capacity >= SIZE,
    {
        vec_capacity(&self.vec).saturating_add(SIZE)
    }

    /// The capacity of the heap-based vector.
    pub fn vec_capacity(&self) -> (capacity: usize)
        requires
            self.wf(),
        ensures
            capacity + SIZE >= self@.len(),
    {
        vec_capacity(&self.vec)
    }

    /// The number of elements currently in the [`StackVec`].
    pub fn len(&self) -> (len: usize)
        ensures
            len == self@.len(),
    {
        self.len
    }

    pub fn is_empty(&self) -> (empty: bool)
        ensures
            empty == (self@.len() == 0),
    {
        self.len == 0
    }

    pub fn clear(&mut self)
        ensures
            final(self).wf(),
            final(self)@.len() == 0,
    {
        self.vec.clear();
        self.len = 0;
    }

    /// A cursor over the elements, from the first to the last.
    pub fn iter(&self) -> (iter: Iter<'_, T, SIZE>)
        requires
            self.wf(),
        ensures
            iter.wf(),
            iter.source() == self@,
            iter.position() == 0,
    {
        Iter { stackvec: self, progress: 0 }
    }

    /// A cursor that hands out the elements for change, from the first to
    /// the last.
    pub fn iter_mut(&mut self) -> (iter: IterMut<'_, T, SIZE>)
        ensures
            *iter.stackvec == *old(self),
            *final(iter.stackvec) == *final(self),
            iter.progress == 0,
    {
        IterMut { stackvec: self, progress: 0 }
    }

    /// Turns the stackvec into a cursor that gives its elements out from
    /// the first to the last.
    pub fn into_iter(self) -> (iter: IntoIter<T, SIZE>)
        requires
            self.wf(),
        ensures
            iter@ == self@,
    {
        let mut stackvec = self;
        let mut rest: Vec<T> = Vec::new();
        let ghost all = stackvec@;
        let total = stackvec.len;
        // The vector is emptied from its end, then the array: `rest` holds
        // the elements last to first.
        while stackvec.vec.len() > 0
            invariant
                stackvec.len == total,
                stackvec.stack == self.stack,
                self.wf(),
                all == self@,
                total == self.len,
                stackvec.vec@ == self.vec@.take(stackvec.vec@.len() as int),
                stackvec.vec@.len() <= self.vec@.len(),
                rest@.len() == self.vec@.len() - stackvec.vec@.len(),
                forall|i: int| 0 <= i < rest@.len() ==> rest@[i] == all[total - 1 - i],
            decreases stackvec.vec@.len(),
        {
            let ghost left = stackvec.vec@.len();
            let val = stackvec.vec.pop().unwrap();
            rest.push(val);
            proof {
                assert(stackvec.vec@ =~= self.vec@.take(left - 1));
            }
        }
        let mut idx: usize = if total < SIZE {
            total
        } else {
            SIZE
        };
        while idx > 0
            invariant
                self.wf(),
                all == self@,
                total == self.len,
                idx <= SIZE,
                idx <= total,
                rest@.len() == total - idx,
                forall|i: int| 0 <= i < idx ==> stackvec.stack@[i] == self.stack@[i],
                forall|i: int| 0 <= i < rest@.len() ==> rest@[i] == all[total - 1 - i],
            decreases idx,
        {
            idx = idx - 1;
            let val = stackvec.stack[idx].take().unwrap();
            rest.push(val);
        }
        proof {
            assert(rest@.reverse() =~= all);
        }
        IntoIter { rest }
    }
}

impl<T, const SIZE: usize> Default for StackVec<T, SIZE> {
    fn default() -> (sv: Self)
        ensures
            sv.wf(),
            sv@.len() == 0,
    {
        Self::new()
    }
}

/// The cursor returned by [`StackVec::into_iter`].
pub struct IntoIter<T, const SIZE: usize> {
    /// What is left to give out, last element first.
    rest: Vec<T>,
}

impl<T, const SIZE: usize> View for IntoIter<T, SIZE> {
    type V = Seq<T>;

    /// The elements that are left, in the order in which they come out.
    closed spec fn view(&self) -> Seq<T> {
        self.rest@.reverse()
    }
}

impl<T, const SIZE: usize> IntoIter<T, SIZE> {
    /// The next element, or `None` once all are out.
    pub fn next(&mut self) -> (r: Option<T>)
        ensures
            old(self)@.len() > 0 ==> r == Some(old(self)@[0]) && final(self)@ == old(self)@.skip(1),
            old(self)@.len() == 0 ==> r is None && final(self)@ == old(self)@,
    {
        let r = self.rest.pop();
        proof {
            if old(self).rest@.len() > 0 {
                assert(self.rest@.reverse() =~= old(self).rest@.reverse().skip(1));
            }
        }
        r
    }
}

/// The cursor returned by [`StackVec::iter`].
pub struct Iter<'a, T, const SIZE: usize> {
    stackvec: &'a StackVec<T, SIZE>,
    progress: usize,
}

impl<'a, T, const SIZE: usize> Iter<'a, T, SIZE> {
    /// The elements of the stackvec that the cursor walks.
    pub closed spec fn source(&self) -> Seq<T> {
        self.stackvec@
    }

    /// The index of the element that comes next.
    pub closed spec fn position(&self) -> int {
        self.progress as int
    }

    /// Whether the stackvec that the cursor walks is well formed.
    pub closed spec fn wf(&self) -> bool {
        self.stackvec.wf()
    }

    /// The element under the cursor, which then moves on; `None` behind
    /// the last element.
    pub fn next(&mut self) -> (r: Option<&'a T>)
        requires
            old(self).wf(),
        ensures
            final(self).wf(),
            final(self).source() == old(self).source(),
            old(self).position() < old(self).source().len() ==> r == Some(
                &old(self).source()[old(self).position()],
            ) && final(self).position() == old(self).position() + 1,
            old(self).position() >= old(self).source().len() ==> r is None && final(self).position() == old(self).position(),
    {
        let idx = self.progress;
        if idx < self.stackvec.len() {
            self.progress = idx + 1;
        }
        self.stackvec.get(idx)
    }
}

/// The cursor returned by [`StackVec::iter_mut`].
pub struct IterMut<'a, T, const SIZE: usize> {
    /// The stackvec that the cursor walks.
    pub stackvec: &'a mut StackVec<T, SIZE>,
    /// The index of the element that comes next.
    pub progress: usize,
}

impl<'a, T, const SIZE: usize> IterMut<'a, T, SIZE> {
    /// The element under the cursor, which then moves on; `None` behind
    /// the last element.
    pub fn next(&mut self) -> (r: Option<&mut T>)
        requires
            old(self).stackvec.wf(),
        ensures
            *final(final(self).stackvec) == *final(old(self).stackvec),
            final(self).stackvec.wf(),
            old(self).progress < old(self).stackvec@.len() ==> r is Some && *r.unwrap() == old(self).stackvec@[old(self).progress as int] && final(self).stackvec@ == old(self).stackvec@.update(old(self).progress as int, *final(r.unwrap())) && final(self).progress
                == old(self).progress + 1,
            old(self).progress >= old(self).stackvec@.len() ==> r is None && final(self).stackvec@
                == old(self).stackvec@ && final(self).progress == old(self).progress,
    {
        let idx = self.progress;
        if idx < self.stackvec.len() {
            self.progress = idx + 1;
        }
        self.stackvec.get_mut(idx)
    }
}

} // verus!
