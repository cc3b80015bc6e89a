//! Module for [`ArenaVec`].

use crate::utils::{align, align_up, lemma_align_up, MemoryAmount};
use vstd::layout::size_of;
use vstd::prelude::*;

verus! {

/// Represents possible errors that vec functions can return
#[derive(Debug, Clone, Copy, PartialEq, Eq, Structural)]
pub enum Error {
    OutOfMemoryAddresses,
    IndexOutOfBounds,
}

/// The page size that an arenavec assumes unless it is told another one.
pub const DEFAULT_PAGE_SIZE: usize = 4096;

/// How many bytes a full arenavec asks for when it has to grow: the size of
/// one element while it is empty, as much as it already uses while doubling
/// stays inside the reservation, and the rest of the reservation otherwise.
pub open spec fn growth_step(used: int, reserved: int, size: int) -> int {
    if used == 0 {
        size
    } else if used * 2 < reserved {
        used
    } else {
        reserved - used
    }
}

/// The committed size after one growth that is to hold `needed` bytes, or
/// `None` where the reservation itself is short of them. A growth commits
/// one page-aligned `growth_step`, or whole pages as far as `needed` where
/// that is more, and never more than the reservation: where the step passes
/// the reservation, all of the reservation is committed.
pub open spec fn grown_capacity(
    used: int,
    capacity: int,
    reserved: int,
    size: int,
    page: int,
    needed: int,
) -> Option<int> {
    if needed > reserved {
        None
    } else {
        let stepped = capacity + align_up(growth_step(used, reserved, size), page);
        let wanted = if stepped < needed {
            align_up(needed, page)
        } else {
            stepped
        };
        Some(
            if wanted < reserved {
                wanted
            } else {
                reserved
            },
        )
    }
}

/// The committed size that holds `needed` bytes: the present one where it
/// is enough, one growth otherwise.
pub open spec fn capacity_for(
    used: int,
    capacity: int,
    reserved: int,
    size: int,
    page: int,
    needed: int,
) -> Option<int> {
    if needed <= capacity {
        Some(capacity)
    } else {
        grown_capacity(used, capacity, reserved, size, page, needed)
    }
}

/// How many of `count` pushes in a row fit in the reservation: the pushes
/// stop at the first one that does not.
pub open spec fn pushes_that_fit(
    used: int,
    capacity: int,
    reserved: int,
    size: int,
    page: int,
    count: nat,
) -> nat
    decreases count,
{
    if count == 0 {
        0
    } else {
        match capacity_for(used, capacity, reserved, size, page, used + size) {
            Some(c) => 1 + pushes_that_fit(
                used + size,
                c,
                reserved,
                size,
                page,
                (count - 1) as nat,
            ),
            None => 0,
        }
    }
}

/// The committed size after as many of `count` pushes in a row as fit.
pub open spec fn capacity_after_pushes(
    used: int,
    capacity: int,
    reserved: int,
    size: int,
    page: int,
    count: nat,
) -> int
    decreases count,
{
    if count == 0 {
        capacity
    } else {
        match capacity_for(used, capacity, reserved, size, page, used + size) {
            Some(c) => capacity_after_pushes(
                used + size,
                c,
                reserved,
                size,
                page,
                (count - 1) as nat,
            ),
            None => capacity,
        }
    }
}

/// No more pushes fit than are asked for.
pub proof fn lemma_fit_bounded(
    used: int,
    capacity: int,
    reserved: int,
    size: int,
    page: int,
    count: nat,
)
    ensures
        pushes_that_fit(used, capacity, reserved, size, page, count) <= count,
    decreases count,
{
    if count > 0 {
        match capacity_for(used, capacity, reserved, size, page, used + size) {
            Some(c) => {
                lemma_fit_bounded(used + size, c, reserved, size, page, (count - 1) as nat);
            },
            None => {},
        }
    }
}

/// All of `first + second` pushes fit exactly where the first `first` fit
/// and then, from where those leave the vector, the other `second`.
pub proof fn lemma_fit_concat(
    used: int,
    capacity: int,
    reserved: int,
    size: int,
    page: int,
    first: nat,
    second: nat,
)
    ensures
        pushes_that_fit(used, capacity, reserved, size, page, first + second) == first + second
            <==> pushes_that_fit(used, capacity, reserved, size, page, first) == first
            && pushes_that_fit(
            used + first * size,
            capacity_after_pushes(used, capacity, reserved, size, page, first),
            reserved,
            size,
            page,
            second,
        ) == second,
    decreases first,
{
    lemma_fit_bounded(used, capacity, reserved, size, page, first + second);
    lemma_fit_bounded(used, capacity, reserved, size, page, first);
    if first == 0 {
        assert(first * size == 0) by (nonlinear_arith)
            requires
                first == 0,
        ;
    } else {
        match capacity_for(used, capacity, reserved, size, page, used + size) {
            Some(c) => {
                lemma_fit_concat(used + size, c, reserved, size, page, (first - 1) as nat, second);
                lemma_fit_bounded(
                    used + size,
                    c,
                    reserved,
                    size,
                    page,
                    (first - 1 + second) as nat,
                );
                lemma_fit_bounded(used + size, c, reserved, size, page, (first - 1) as nat);
                assert(used + size + (first - 1) * size == used + first * size)
                    by (nonlinear_arith);
            },
            None => {},
        }
    }
}

/// A vector holds `needed` bytes exactly where its reservation does, and a
/// growth never lowers the committed size nor passes the reservation.
pub proof fn lemma_capacity_for(
    used: int,
    capacity: int,
    reserved: int,
    size: int,
    page: int,
    needed: int,
)
    requires
        0 <= used <= capacity <= reserved,
        size >= 0,
        page > 0,
        needed >= 0,
    ensures
        capacity_for(used, capacity, reserved, size, page, needed) is Some <==> needed <= reserved,
        capacity_for(used, capacity, reserved, size, page, needed) matches Some(c) ==> capacity
            <= c <= reserved && needed <= c,
{
    if needed > capacity && needed <= reserved {
        lemma_align_up(growth_step(used, reserved, size), page);
        lemma_align_up(needed, page);
    }
}

/// A vector takes elements up to its reservation: all of `count` pushes
/// fit exactly where the reservation has room for them. The pushes that
/// fit never lower the committed size, which holds them and stays inside
/// the reservation.
pub proof fn lemma_fit_reservation(
    used: int,
    capacity: int,
    reserved: int,
    size: int,
    page: int,
    count: nat,
)
    requires
        0 <= used <= capacity <= reserved,
        size >= 0,
        page > 0,
    ensures
        pushes_that_fit(used, capacity, reserved, size, page, count) == count <==> used + count
            * size <= reserved,
        pushes_that_fit(used, capacity, reserved, size, page, count) <= count,
        capacity <= capacity_after_pushes(used, capacity, reserved, size, page, count) <= reserved,
        used + pushes_that_fit(used, capacity, reserved, size, page, count) * size
            <= capacity_after_pushes(used, capacity, reserved, size, page, count),
    decreases count,
{
    if count == 0 {
        assert(0 * size == 0) by (nonlinear_arith);
    } else {
        let rest = (count - 1) as nat;
        lemma_capacity_for(used, capacity, reserved, size, page, used + size);
        assert(used + size + rest * size == used + count * size) by (nonlinear_arith)
            requires
                rest == count - 1,
        ;
        assert(count * size >= size) by (nonlinear_arith)
            requires
                count >= 1,
                size >= 0,
        ;
        match capacity_for(used, capacity, reserved, size, page, used + size) {
            Some(c) => {
                lemma_fit_reservation(used + size, c, reserved, size, page, rest);
                let fit = pushes_that_fit(used + size, c, reserved, size, page, rest);
                assert(used + size + fit * size == used + (1 + fit) * size) by (nonlinear_arith);
            },
            None => {
                assert(0 * size == 0) by (nonlinear_arith);
            },
        }
    }
}

/// How far a value is from the next multiple of `page`.
fn padding(value: usize, page: usize) -> (pad: usize)
    requires
        page > 0,
    ensures
        pad < page,
        value + pad == align_up(value as int, page as int),
{
    let rem: usize = value % page;
    if rem == 0 {
        0
    } else {
        page - rem
    }
}

/// Decides how far the committed part of a reservation grows so that it
/// holds `needed` bytes. `None` means that the reservation is short of
/// them.
pub fn plan_growth(
    used: usize,
    capacity: usize,
    reserved: usize,
    size: usize,
    page: usize,
    needed: usize,
) -> (plan: Option<usize>)
    requires
        used <= capacity <= reserved,
        page > 0,
    ensures
        plan matches Some(c) ==> grown_capacity(
            used as int,
            capacity as int,
            reserved as int,
            size as int,
            page as int,
            needed as int,
        ) == Some(c as int),
        plan is None ==> grown_capacity(
            used as int,
            capacity as int,
            reserved as int,
            size as int,
            page as int,
            needed as int,
        ) is None,
        plan is Some <==> needed <= reserved,
{
    if needed > reserved {
        return None;
    }
    let step: usize = if used == 0 {
        size
    } else if used < reserved - used {
        used
    } else {
        reserved - used
    };
    let room: usize = reserved - capacity;
    // The step, rounded up to whole pages, either stays below what is left
    // of the reservation or takes all of it.
    let stepped: usize = if step < room {
        let pad = padding(step, page);
        if pad < room - step {
            capacity + step + pad
        } else {
            reserved
        }
    } else {
        proof {
            lemma_align_up(step as int, page as int);
        }
        reserved
    };
    if stepped >= needed {
        Some(stepped)
    } else {
        let pad = padding(needed, page);
        if pad < reserved - needed {
            Some(needed + pad)
        } else {
            Some(reserved)
        }
    }
}

/// The elements of `items` that are not marked in `removed`, in their
/// order.
pub open spec fn kept<T>(items: Seq<T>, removed: Seq<bool>) -> Seq<T>
    decreases items.len(),
{
    if items.len() == 0 || removed.len() != items.len() {
        Seq::empty()
    } else {
        let rest = kept(items.drop_last(), removed.drop_last());
        if removed.last() {
            rest
        } else {
            rest.push(items.last())
        }
    }
}

/// The elements of `items` in the opposite order.
pub(crate) fn reversed<T>(items: Vec<T>) -> (r: Vec<T>)
    ensures
        r@ == items@.reverse(),
{
    let ghost all = items@;
    let mut items = items;
    let mut r: Vec<T> = Vec::new();
    while items.len() > 0
        invariant
            items@.len() <= all.len(),
            items@ == all.take(items@.len() as int),
            r@.len() == all.len() - items@.len(),
            forall|i: int| 0 <= i < r@.len() ==> r@[i] == all[all.len() - 1 - i],
        decreases items@.len(),
    {
        let ghost left = items@.len();
        let val = items.pop().unwrap();
        r.push(val);
        proof {
            assert(items@ =~= all.take(left - 1));
        }
    }
    assert(r@ =~= all.reverse());
    r
}

/// A vector backed by one reservation of address space. An arenavec never
/// moves: pushing only commits more of the range that was reserved when the
/// vector was made, so an element stays at the offset at which it was
/// written until it is removed or the vector is dropped.
///
/// The reservation is fixed at creation. The committed part grows by whole
/// pages as elements arrive, and the vector is exhausted once an element no
/// longer fits in what was reserved.
pub struct ArenaVec<T> {
    /// The total amount of memory the arenavec reserved when it was created.
    reserved_memory: usize,
    /// The amount of memory the arenavec has committed and can be used to
    /// store data.
    capacity: usize,
    /// The page size by which the committed part grows.
    page_size: usize,
    /// The elements, in index order.
    items: Vec<T>,
}

impl<T> View for ArenaVec<T> {
    type V = Seq<T>;

    closed spec fn view(&self) -> Seq<T> {
        self.items@
    }
}

impl<T> ArenaVec<T> {
    /// The size of one element in bytes.
    pub open spec fn elem_size() -> int {
        size_of::<T>() as int
    }

    /// The committed bytes.
    pub closed spec fn spec_capacity(&self) -> int {
        self.capacity as int
    }

    /// The reserved bytes.
    pub closed spec fn spec_reserved_memory(&self) -> int {
        self.reserved_memory as int
    }

    /// The page size.
    pub closed spec fn spec_page_size(&self) -> int {
        self.page_size as int
    }

    /// The bytes that the elements occupy.
    pub open spec fn used_memory(&self) -> int {
        self@.len() * Self::elem_size()
    }

    /// The invariant of an arenavec: the elements fit in the committed
    /// bytes, and the committed bytes in the reservation.
    pub closed spec fn wf(&self) -> bool {
        &&& self.page_size > 0
        &&& self.items@.len() * size_of::<T>() <= self.capacity
        &&& self.capacity <= self.reserved_memory
    }

    /// The committed size with which the vector holds `needed` bytes, or
    /// `None` where its reservation is exhausted.
    pub open spec fn capacity_to_hold(&self, needed: int) -> Option<int> {
        capacity_for(
            self.used_memory(),
            self.spec_capacity(),
            self.spec_reserved_memory(),
            Self::elem_size(),
            self.spec_page_size(),
            needed,
        )
    }

    /// The committed size after one more element, or `None` where the
    /// element does not fit in the reservation.
    pub open spec fn capacity_after_push(&self) -> Option<int> {
        self.capacity_to_hold(self.used_memory() + Self::elem_size())
    }

    /// How many of `count` pushes in a row fit in the reservation.
    pub open spec fn fitting_pushes(&self, count: nat) -> nat {
        pushes_that_fit(
            self.used_memory(),
            self.spec_capacity(),
            self.spec_reserved_memory(),
            Self::elem_size(),
            self.spec_page_size(),
            count,
        )
    }

    /// The committed size after as many of `count` pushes in a row as fit.
    pub open spec fn capacity_after(&self, count: nat) -> int {
        capacity_after_pushes(
            self.used_memory(),
            self.spec_capacity(),
            self.spec_reserved_memory(),
            Self::elem_size(),
            self.spec_page_size(),
            count,
        )
    }

    /// The number of elements that fit in the reservation beyond those that
    /// the vector holds, counting a last element that fits only in part.
    pub open spec fn spec_remaining_space(&self) -> int {
        (self.spec_reserved_memory() + Self::elem_size() - 1) / Self::elem_size() - self@.len()
    }

    /// Whether the reservation has room for `count` more elements.
    pub open spec fn fits(&self, count: nat) -> bool {
        self.used_memory() + count * Self::elem_size() <= self.spec_reserved_memory()
    }

    /// The byte offset of element `idx` from the base of the reservation.
    pub open spec fn offset_of(idx: int) -> int {
        idx * Self::elem_size()
    }

    /// What a well-formed arenavec guarantees about its sizes.
    pub proof fn lemma_wf(&self)
        requires
            self.wf(),
        ensures
            0 <= self.used_memory() <= self.spec_capacity() <= self.spec_reserved_memory(),
            self.spec_reserved_memory() <= usize::MAX,
            self.spec_page_size() > 0,
    {
        assert(self.items@.len() * size_of::<T>() >= 0) by (nonlinear_arith);
    }

    /// The reservation that [`ArenaVec::new`] asks for: ten gibibytes, or,
    /// where a `usize` cannot count that far, the largest whole number of
    /// default pages that it can count.
    pub open spec fn spec_default_reserved_memory() -> int {
        if 10737418240 <= usize::MAX {
            10737418240
        } else {
            usize::MAX - usize::MAX % 4096
        }
    }

    /// The reservation that [`ArenaVec::new`] asks for.
    pub fn default_reserved_memory() -> (bytes: usize)
        ensures
            bytes == Self::spec_default_reserved_memory(),
            bytes % DEFAULT_PAGE_SIZE == 0,
    {
        match MemoryAmount::Gibibytes(10).checked_into_bytes() {
            Some(bytes) => bytes,
            None => usize::MAX - usize::MAX % DEFAULT_PAGE_SIZE,
        }
    }

    /// Creates a default [`ArenaVec`]. This reserves virtual addresses and
    /// commits nothing.
    pub fn new() -> (v: Self)
        ensures
            v.wf(),
            v@.len() == 0,
            v.spec_capacity() == 0,
            v.spec_reserved_memory() == Self::spec_default_reserved_memory(),
            v.spec_page_size() == DEFAULT_PAGE_SIZE,
            v.spec_reserved_memory() % DEFAULT_PAGE_SIZE as int == 0,
    {
        Self::with_reserved_memory(Self::default_reserved_memory())
    }

    /// Create an [`ArenaVec`] with the specified amount of reserved virtual
    /// addresses, rounded up to whole pages. This commits nothing.
    pub fn with_reserved_memory(reserved_memory: usize) -> (v: Self)
        requires
            align_up(reserved_memory as int, DEFAULT_PAGE_SIZE as int) <= usize::MAX,
        ensures
            v.wf(),
            v@.len() == 0,
            v.spec_capacity() == 0,
            v.spec_reserved_memory() == align_up(reserved_memory as int, DEFAULT_PAGE_SIZE as int),
            v.spec_page_size() == DEFAULT_PAGE_SIZE,
            v.spec_reserved_memory() % DEFAULT_PAGE_SIZE as int == 0,
    {
        Self::with_reserved_memory_and_capacity(reserved_memory, 0)
    }

    /// Create an [`ArenaVec`] with the specified committed size in bytes.
    /// This reserves either the default amount of memory or the committed
    /// size, whichever is larger.
    pub fn with_capacity(capacity: usize) -> (v: Self)
        requires
            align_up(capacity as int, DEFAULT_PAGE_SIZE as int) <= usize::MAX,
        ensures
            v.wf(),
            v@.len() == 0,
            v.spec_capacity() == capacity,
            v.spec_reserved_memory() == (if capacity > Self::spec_default_reserved_memory() {
                align_up(capacity as int, DEFAULT_PAGE_SIZE as int)
            } else {
                Self::spec_default_reserved_memory()
            }),
            v.spec_page_size() == DEFAULT_PAGE_SIZE,
            v.spec_reserved_memory() % DEFAULT_PAGE_SIZE as int == 0,
    {
        let default_reserved = Self::default_reserved_memory();
        if capacity > default_reserved {
            Self::with_reserved_memory_and_capacity(capacity, capacity)
        } else {
            proof {
                lemma_align_up(default_reserved as int, DEFAULT_PAGE_SIZE as int);
            }
            Self::with_reserved_memory_and_capacity(default_reserved, capacity)
        }
    }

    /// Create an [`ArenaVec`] with the specified amount of reserved virtual
    /// addresses, rounded up to whole pages, of which `capacity` bytes are
    /// committed at once.
    pub fn with_reserved_memory_and_capacity(reserved_memory: usize, capacity: usize) -> (v: Self)
        requires
            capacity <= reserved_memory,
            align_up(reserved_memory as int, DEFAULT_PAGE_SIZE as int) <= usize::MAX,
        ensures
            v.wf(),
            v@.len() == 0,
            v.spec_capacity() == capacity,
            v.spec_reserved_memory() == align_up(reserved_memory as int, DEFAULT_PAGE_SIZE as int),
            v.spec_page_size() == DEFAULT_PAGE_SIZE,
            v.spec_reserved_memory() % DEFAULT_PAGE_SIZE as int == 0,
    {
        Self::with_page_size(reserved_memory, capacity, DEFAULT_PAGE_SIZE)
    }

    /// Create an [`ArenaVec`] for a host whose pages have `page_size` bytes.
    pub fn with_page_size(reserved_memory: usize, capacity: usize, page_size: usize) -> (v: Self)
        requires
            page_size > 0,
            capacity <= reserved_memory,
            align_up(reserved_memory as int, page_size as int) <= usize::MAX,
        ensures
            v.wf(),
            v@.len() == 0,
            v.spec_capacity() == capacity,
            v.spec_reserved_memory() == align_up(reserved_memory as int, page_size as int),
            v.spec_page_size() == page_size,
            v.spec_reserved_memory() % page_size as int == 0,
    {
        proof {
            lemma_align_up(reserved_memory as int, page_size as int);
        }
        let reserved_memory = align(reserved_memory, page_size);
        let v = Self { reserved_memory, capacity, page_size, items: Vec::new() };
        assert(v.items@.len() * size_of::<T>() == 0) by (nonlinear_arith)
            requires
                v.items@.len() == 0,
        ;
        v
    }

    /// The bytes that the elements occupy.
    fn used_bytes(&self) -> (used: usize)
        requires
            self.wf(),
        ensures
            used == self.used_memory(),
            used <= self.capacity,
    {
        self.items.len() * core::mem::size_of::<T>()
    }

    /// Commits memory if necessary so that the capacity is at least
    /// `needed` bytes. Where the reservation cannot take the growth the
    /// vector is left as it was.
    fn try_ensure_capacity(&mut self, needed: usize) -> (r: Result<(), Error>)
        requires
            old(self).wf(),
        ensures
            final(self).wf(),
            final(self)@ == old(self)@,
            final(self).spec_reserved_memory() == old(self).spec_reserved_memory(),
            final(self).spec_page_size() == old(self).spec_page_size(),
            match old(self).capacity_to_hold(needed as int) {
                Some(c) => r is Ok && final(self).spec_capacity() == c,
                None => r == Err::<(), Error>(Error::OutOfMemoryAddresses) && final(self).spec_capacity() == old(self).spec_capacity(),
            },
            r is Ok ==> final(self).spec_capacity() >= needed,
    {
        if needed > self.capacity {
            let used = self.used_bytes();
            match plan_growth(
                used,
                self.capacity,
                self.reserved_memory,
                core::mem::size_of::<T>(),
                self.page_size,
                needed,
            ) {
                Some(grown) => {
                    self.capacity = grown;
                    Ok(())
                },
                None => Err(Error::OutOfMemoryAddresses),
            }
        } else {
            Ok(())
        }
    }

    /// Appends an element, or reports that the reservation is exhausted and
    /// leaves the vector as it was.
    pub fn try_push(&mut self, val: T) -> (r: Result<(), Error>)
        requires
            old(self).wf(),
        ensures
            final(self).wf(),
            final(self).spec_reserved_memory() == old(self).spec_reserved_memory(),
            final(self).spec_page_size() == old(self).spec_page_size(),
            r is Ok <==> old(self).fits(1),
            old(self).spec_capacity() <= final(self).spec_capacity(),
            match old(self).capacity_after_push() {
                Some(c) => r is Ok && final(self)@ == old(self)@.push(val) && final(self).spec_capacity() == c,
                None => r == Err::<(), Error>(Error::OutOfMemoryAddresses) && final(self)@ == old(self)@ && final(self).spec_capacity() == old(self).spec_capacity(),
            },
    {
        proof {
            self.lemma_room(1);
        }
        let used = self.used_bytes();
        let size = core::mem::size_of::<T>();
        if size > usize::MAX - used {
            return Err(Error::OutOfMemoryAddresses);
        }
        match self.try_ensure_capacity(used + size) {
            Ok(()) => {
                assert((self.items@.len() + 1) * size_of::<T>() == self.items@.len() * size_of::<
                    T,
                >() + size_of::<T>()) by (nonlinear_arith);
                self.items.push(val);
                Ok(())
            },
            Err(e) => Err(e),
        }
    }

    /// Appends an element. The element must fit in the reservation.
    pub fn push(&mut self, val: T)
        requires
            old(self).wf(),
            old(self).fits(1),
        ensures
            final(self).wf(),
            final(self)@ == old(self)@.push(val),
            old(self).capacity_after_push() is Some,
            final(self).spec_capacity() == old(self).capacity_after_push().unwrap(),
            old(self).spec_capacity() <= final(self).spec_capacity(),
            final(self).spec_reserved_memory() == old(self).spec_reserved_memory(),
            final(self).spec_page_size() == old(self).spec_page_size(),
    {
        proof {
            self.lemma_room(1);
        }
        let _ = self.try_push(val);
    }

    /// The number of elements.
    #[inline(always)]
    pub fn len(&self) -> (len: usize)
        ensures
            len == self@.len(),
    {
        self.items.len()
    }

    pub fn is_empty(&self) -> (empty: bool)
        ensures
            empty == (self@.len() == 0),
    {
        self.items.len() == 0
    }

    /// The committed bytes.
    #[inline(always)]
    pub fn capacity(&self) -> (capacity: usize)
        ensures
            capacity == self.spec_capacity(),
    {
        self.capacity
    }

    /// The reserved bytes.
    pub fn reserved_memory(&self) -> (reserved: usize)
        ensures
            reserved == self.spec_reserved_memory(),
    {
        self.reserved_memory
    }

    /// The page size by which the committed part grows.
    pub fn page_size(&self) -> (page_size: usize)
        ensures
            page_size == self.spec_page_size(),
    {
        self.page_size
    }

    pub fn get(&self, idx: usize) -> (r: Option<&T>)
        ensures
            idx < self@.len() ==> r == Some(&self@[idx as int]),
            idx >= self@.len() ==> r is None,
    {
        if idx < self.items.len() {
            Some(&self.items[idx])
        } else {
            None
        }
    }

    pub fn get_mut(&mut self, idx: usize) -> (r: Option<&mut T>)
        requires
            old(self).wf(),
        ensures
            final(self).wf(),
            final(self).spec_capacity() == old(self).spec_capacity(),
            final(self).spec_reserved_memory() == old(self).spec_reserved_memory(),
            final(self).spec_page_size() == old(self).spec_page_size(),
            idx >= old(self)@.len() ==> r is None && final(self)@ == old(self)@,
            idx < old(self)@.len() ==> r is Some && *r.unwrap() == old(self)@[idx as int] && final(self)@ == old(self)@.update(idx as int, *final(r.unwrap())),
    {
        if idx < self.items.len() {
            Some(&mut self.items[idx])
        } else {
            None
        }
    }

    /// Removes an item from the vector, moving all items after it down a slot.
    pub fn remove(&mut self, idx: usize) -> (r: Option<T>)
        requires
            old(self).wf(),
        ensures
            final(self).wf(),
            final(self).spec_capacity() == old(self).spec_capacity(),
            final(self).spec_reserved_memory() == old(self).spec_reserved_memory(),
            final(self).spec_page_size() == old(self).spec_page_size(),
            idx < old(self)@.len() ==> r == Some(old(self)@[idx as int]) && final(self)@ == old(self)@.remove(idx as int),
            idx >= old(self)@.len() ==> r is None && final(self)@ == old(self)@,
    {
        if idx < self.items.len() {
            proof {
                Self::lemma_used_monotonic(self.items@.len() - 1, self.items@.len() as int);
            }
            Some(self.items.remove(idx))
        } else {
            None
        }
    }

    /// Removes the last item of the vector and returns it.
    pub fn pop(&mut self) -> (r: Option<T>)
        requires
            old(self).wf(),
        ensures
            final(self).wf(),
            final(self).spec_capacity() == old(self).spec_capacity(),
            final(self).spec_reserved_memory() == old(self).spec_reserved_memory(),
            final(self).spec_page_size() == old(self).spec_page_size(),
            old(self)@.len() > 0 ==> r == Some(old(self)@.last()) && final(self)@ == old(self)@.drop_last(),
            old(self)@.len() == 0 ==> r is None && final(self)@ == old(self)@,
    {
        if self.items.len() == 0 {
            None
        } else {
            proof {
                Self::lemma_used_monotonic(self.items@.len() - 1, self.items@.len() as int);
            }
            self.items.pop()
        }
    }

    /// Removes the item at `idx` and puts the last item in its place. The
    /// item removed must not be the last one.
    pub fn swap_remove(&mut self, idx: usize) -> (r: T)
        requires
            old(self).wf(),
            idx + 1 < old(self)@.len(),
        ensures
            final(self).wf(),
            final(self).spec_capacity() == old(self).spec_capacity(),
            final(self).spec_reserved_memory() == old(self).spec_reserved_memory(),
            final(self).spec_page_size() == old(self).spec_page_size(),
            r == old(self)@[idx as int],
            final(self)@ == old(self)@.drop_last().update(idx as int, old(self)@.last()),
    {
        proof {
            Self::lemma_used_monotonic(self.items@.len() - 1, self.items@.len() as int);
        }
        self.items.swap_remove(idx)
    }

    /// Resets the element count to zero. The committed memory stays, so
    /// that pushing again is cheap.
    pub fn clear(&mut self)
        ensures
            old(self).wf() ==> final(self).wf(),
            final(self)@.len() == 0,
            final(self).spec_capacity() == old(self).spec_capacity(),
            final(self).spec_reserved_memory() == old(self).spec_reserved_memory(),
            final(self).spec_page_size() == old(self).spec_page_size(),
    {
        proof {
            Self::lemma_used_monotonic(0, self.items@.len() as int);
        }
        self.items.clear();
    }

    /// Shortens the vector to `new_len` elements. A length beyond the
    /// present one changes nothing.
    pub fn truncate(&mut self, new_len: usize)
        requires
            old(self).wf(),
        ensures
            final(self).wf(),
            final(self)@ == (if new_len <= old(self)@.len() {
                old(self)@.take(new_len as int)
            } else {
                old(self)@
            }),
            final(self).spec_capacity() == old(self).spec_capacity(),
            final(self).spec_reserved_memory() == old(self).spec_reserved_memory(),
            final(self).spec_page_size() == old(self).spec_page_size(),
    {
        if new_len > self.items.len() {
            return ;
        }
        proof {
            Self::lemma_used_monotonic(new_len as int, self.items@.len() as int);
        }
        self.items.truncate(new_len);
    }

    /// Commits memory, if necessary, for `additional` more elements. They
    /// must fit in the reservation.
    pub fn reserve(&mut self, additional: usize)
        requires
            old(self).wf(),
            old(self).fits(additional as nat),
        ensures
            final(self).wf(),
            final(self)@ == old(self)@,
            old(self).capacity_to_hold((old(self)@.len() + additional) * Self::elem_size()) is Some,
            final(self).spec_capacity() == old(self).capacity_to_hold(
                (old(self)@.len() + additional) * Self::elem_size(),
            ).unwrap(),
            old(self).spec_capacity() <= final(self).spec_capacity(),
            (old(self)@.len() + additional) * Self::elem_size() <= final(self).spec_capacity(),
            final(self).spec_reserved_memory() == old(self).spec_reserved_memory(),
            final(self).spec_page_size() == old(self).spec_page_size(),
    {
        proof {
            self.lemma_needed(additional as nat);
        }
        let _ = self.try_reserve(additional);
    }

    /// Commits memory, if necessary, for `additional` more elements, or
    /// reports that the reservation cannot take them.
    pub fn try_reserve(&mut self, additional: usize) -> (r: Result<(), Error>)
        requires
            old(self).wf(),
        ensures
            final(self).wf(),
            final(self)@ == old(self)@,
            final(self).spec_reserved_memory() == old(self).spec_reserved_memory(),
            final(self).spec_page_size() == old(self).spec_page_size(),
            r is Ok <==> old(self).fits(additional as nat),
            old(self).spec_capacity() <= final(self).spec_capacity(),
            r is Ok ==> (old(self)@.len() + additional) * Self::elem_size()
                <= final(self).spec_capacity(),
            match old(self).capacity_to_hold((old(self)@.len() + additional) * Self::elem_size()) {
                Some(c) => r is Ok && final(self).spec_capacity() == c,
                None => r == Err::<(), Error>(Error::OutOfMemoryAddresses) && final(self).spec_capacity() == old(self).spec_capacity(),
            },
    {
        proof {
            self.lemma_needed(additional as nat);
        }
        let size = core::mem::size_of::<T>();
        let ghost needed = (self@.len() + additional) * Self::elem_size();
        if size == 0 {
            assert(needed == 0) by (nonlinear_arith)
                requires
                    needed == (self@.len() + additional) * Self::elem_size(),
                    Self::elem_size() == 0,
            ;
            return Ok(());
        }
        let fits = match self.items.len().checked_add(additional) {
            Some(count) => count.checked_mul(size),
            None => None,
        };
        match fits {
            Some(bytes) => self.try_ensure_capacity(bytes),
            None => {
                assert(needed > usize::MAX) by (nonlinear_arith)
                    requires
                        needed == (self@.len() + additional) * Self::elem_size(),
                        Self::elem_size() > 0,
                        self@.len() + additional > usize::MAX || (self@.len() + additional)
                            * Self::elem_size() > usize::MAX,
                ;
                Err(Error::OutOfMemoryAddresses)
            },
        }
    }

    /// Whether the reservation has room for `count` more elements: whether
    /// as many pushes succeed.
    pub fn has_room(&self, count: usize) -> (room: bool)
        requires
            self.wf(),
        ensures
            room == self.fits(count as nat),
            room == (self.fitting_pushes(count as nat) == count),
    {
        proof {
            self.lemma_room(count as nat);
        }
        let size = core::mem::size_of::<T>();
        let used = self.used_bytes();
        if size == 0 {
            proof {
                assert(count * Self::elem_size() == 0) by (nonlinear_arith)
                    requires
                        Self::elem_size() == 0,
                ;
            }
            return true;
        }
        let left = self.reserved_memory - used;
        let most = left / size;
        proof {
            let d = left as int;
            let z = size as int;
            let q = most as int;
            let c = count as int;
            vstd::arithmetic::div_mod::lemma_fundamental_div_mod(d, z);
            assert(c <= q ==> c * z <= d) by (nonlinear_arith)
                requires
                    d == z * q + d % z,
                    0 <= d % z,
                    z > 0,
                    c >= 0,
            ;
            assert(c > q ==> c * z > d) by (nonlinear_arith)
                requires
                    d == z * q + d % z,
                    d % z < z,
                    z > 0,
            ;
        }
        count <= most
    }

    /// The number of elements that fit in the reservation beyond those that
    /// the vector holds, counting a last element that fits only in part.
    pub fn remaining_space(&self) -> (space: usize)
        requires
            self.wf(),
            Self::elem_size() > 0,
        ensures
            space == self.spec_remaining_space(),
    {
        let size = core::mem::size_of::<T>();
        let whole = self.reserved_memory / size;
        let part = self.reserved_memory % size;
        proof {
            let r = self.reserved_memory as int;
            let z = size as int;
            let n = self.items@.len() as int;
            assert(n * z <= r);
            assert(n <= r / z) by (nonlinear_arith)
                requires
                    n * z <= r,
                    z > 0,
            ;
            assert((r + z - 1) / z == r / z + (if r % z == 0 {
                0int
            } else {
                1int
            })) by (nonlinear_arith)
                requires
                    z > 0,
                    r >= 0,
            ;
            assert(z >= 2 ==> r / z < r || r == 0) by (nonlinear_arith)
                requires
                    z > 0,
                    r >= 0,
            ;
        }
        if part == 0 {
            whole - self.items.len()
        } else {
            whole + 1 - self.items.len()
        }
    }

    /// Lowers the committed size to `min_capacity` bytes, but not below
    /// what the elements occupy and never above what is committed.
    pub fn shrink_to(&mut self, min_capacity: usize)
        requires
            old(self).wf(),
        ensures
            final(self).wf(),
            final(self)@ == old(self)@,
            final(self).spec_capacity() == (if min_capacity >= old(self).spec_capacity() {
                old(self).spec_capacity()
            } else if min_capacity >= old(self).used_memory() {
                min_capacity as int
            } else {
                old(self).used_memory()
            }),
            final(self).spec_reserved_memory() == old(self).spec_reserved_memory(),
            final(self).spec_page_size() == old(self).spec_page_size(),
    {
        let used = self.used_bytes();
        let floor = if min_capacity > used {
            min_capacity
        } else {
            used
        };
        if floor < self.capacity {
            self.capacity = floor;
        }
    }

    /// Lowers the committed size to what the elements occupy.
    pub fn shrink_to_fit(&mut self)
        requires
            old(self).wf(),
        ensures
            final(self).wf(),
            final(self)@ == old(self)@,
            final(self).spec_capacity() == old(self).used_memory(),
            final(self).spec_reserved_memory() == old(self).spec_reserved_memory(),
            final(self).spec_page_size() == old(self).spec_page_size(),
    {
        let used = self.used_bytes();
        self.shrink_to(used);
    }

    /// The elements as a slice.
    pub fn as_slice(&self) -> (slice: &[T])
        ensures
            slice@ == self@,
    {
        self.items.as_slice()
    }

    /// The elements as a slice for change in place.
    pub fn as_mut_slice(&mut self) -> (slice: &mut [T])
        requires
            old(self).wf(),
        ensures
            slice@ == old(self)@,
            final(self)@ == final(slice)@,
            final(self).spec_capacity() == old(self).spec_capacity(),
            final(self).spec_reserved_memory() == old(self).spec_reserved_memory(),
            final(self).spec_page_size() == old(self).spec_page_size(),
            final(slice)@.len() == slice@.len() ==> final(self).wf(),
    {
        self.items.as_mut_slice()
    }

    /// The byte offset of element `idx` from the base of the reservation,
    /// or `None` where the vector has no such element.
    pub fn address_of(&self, idx: usize) -> (offset: Option<usize>)
        requires
            self.wf(),
        ensures
            idx < self@.len() ==> offset == Some(Self::offset_of(idx as int) as usize)
                && Self::offset_of(idx as int) + Self::elem_size() <= self.spec_capacity(),
            idx >= self@.len() ==> offset is None,
    {
        if idx < self.items.len() {
            proof {
                Self::lemma_used_monotonic(idx as int + 1, self.items@.len() as int);
                Self::lemma_used_monotonic(idx as int, idx as int + 1);
                assert((idx + 1) * size_of::<T>() == idx * size_of::<T>() + size_of::<T>())
                    by (nonlinear_arith);
            }
            Some(idx * core::mem::size_of::<T>())
        } else {
            None
        }
    }

    /// One push that fits takes one from the pushes that are left to fit.
    proof fn lemma_push_step(before: Self, after: Self, count: nat)
        requires
            count > 0,
            after@.len() == before@.len() + 1,
            after.spec_reserved_memory() == before.spec_reserved_memory(),
            after.spec_page_size() == before.spec_page_size(),
            before.capacity_after_push() == Some(after.spec_capacity()),
        ensures
            before.fitting_pushes(count) == 1 + after.fitting_pushes((count - 1) as nat),
            before.capacity_after(count) == after.capacity_after((count - 1) as nat),
    {
        assert((before@.len() + 1) * Self::elem_size() == before@.len() * Self::elem_size()
            + Self::elem_size()) by (nonlinear_arith);
    }

    /// Appends clones of the elements of `other`, in order, up to the first
    /// one that the reservation cannot take.
    pub fn try_extend_from_slice(&mut self, other: &[T]) -> (r: Result<(), Error>) where T: Clone
        requires
            old(self).wf(),
        ensures
            final(self).wf(),
            final(self).spec_reserved_memory() == old(self).spec_reserved_memory(),
            final(self).spec_page_size() == old(self).spec_page_size(),
            final(self).spec_capacity() == old(self).capacity_after(other@.len()),
            final(self)@.len() == old(self)@.len() + old(self).fitting_pushes(other@.len()),
            final(self)@.take(old(self)@.len() as int) == old(self)@,
            forall|i: int|
                0 <= i < old(self).fitting_pushes(other@.len()) ==> cloned(
                    other@[i],
                    #[trigger] final(self)@[old(self)@.len() + i],
                ),
            r is Ok <==> old(self).fitting_pushes(other@.len()) == other@.len(),
            r is Ok <==> old(self).fits(other@.len()),
            r is Err ==> r == Err::<(), Error>(Error::OutOfMemoryAddresses),
    {
        proof {
            self.lemma_room(other@.len());
        }
        let ghost start = *self;
        let mut i: usize = 0;
        while i < other.len()
            invariant
                self.wf(),
                start.wf(),
                start == *old(self),
                start.fitting_pushes(other@.len()) == other@.len() <==> start.fits(other@.len()),
                i <= other@.len(),
                self.spec_reserved_memory() == start.spec_reserved_memory(),
                self.spec_page_size() == start.spec_page_size(),
                self@.len() == start@.len() + i,
                self@.take(start@.len() as int) == start@,
                forall|j: int| 0 <= j < i ==> cloned(other@[j], #[trigger] self@[start@.len() + j]),
                start.fitting_pushes(other@.len()) == i + self.fitting_pushes(
                    (other@.len() - i) as nat,
                ),
                start.capacity_after(other@.len()) == self.capacity_after(
                    (other@.len() - i) as nat,
                ),
            decreases other@.len() - i,
        {
            let ghost before = *self;
            let val = other[i].clone();
            match self.try_push(val) {
                Ok(()) => {
                    proof {
                        Self::lemma_push_step(before, *self, (other@.len() - i) as nat);
                        assert(self@.take(start@.len() as int) =~= before@.take(
                            start@.len() as int,
                        ));
                    }
                },
                Err(e) => {
                    return Err(e);
                },
            }
            i = i + 1;
        }
        Ok(())
    }

    /// Appends clones of the elements of `other`, in order. They must fit
    /// in the reservation.
    pub fn extend_from_slice(&mut self, other: &[T]) where T: Clone
        requires
            old(self).wf(),
            old(self).fits(other@.len()),
        ensures
            final(self).wf(),
            final(self).spec_reserved_memory() == old(self).spec_reserved_memory(),
            final(self).spec_page_size() == old(self).spec_page_size(),
            final(self).spec_capacity() == old(self).capacity_after(other@.len()),
            old(self).spec_capacity() <= final(self).spec_capacity(),
            final(self)@.len() == old(self)@.len() + other@.len(),
            final(self)@.take(old(self)@.len() as int) == old(self)@,
            forall|i: int|
                0 <= i < other@.len() ==> cloned(
                    other@[i],
                    #[trigger] final(self)@[old(self)@.len() + i],
                ),
    {
        proof {
            self.lemma_room(other@.len());
        }
        let _ = self.try_extend_from_slice(other);
    }

    /// Brings the vector to `new_len` elements: a longer vector is cut, a
    /// shorter one is filled with what `f` returns, call by call, up to the
    /// first element that the reservation cannot take.
    pub fn try_resize_with<F>(&mut self, new_len: usize, f: F) -> (r: Result<(), Error>) where
        F: FnMut() -> T,

        requires
            old(self).wf(),
            call_requires(f, ()),
        ensures
            final(self).wf(),
            final(self).spec_reserved_memory() == old(self).spec_reserved_memory(),
            final(self).spec_page_size() == old(self).spec_page_size(),
            new_len <= old(self)@.len() ==> r is Ok && final(self)@ == old(self)@.take(
                new_len as int,
            ) && final(self).spec_capacity() == old(self).spec_capacity(),
            new_len > old(self)@.len() ==> {
                let missing = (new_len - old(self)@.len()) as nat;
                &&& final(self).spec_capacity() == old(self).capacity_after(missing)
                &&& final(self)@.len() == old(self)@.len() + old(self).fitting_pushes(missing)
                &&& final(self)@.take(old(self)@.len() as int) == old(self)@
                &&& forall|i: int|
                    old(self)@.len() <= i < final(self)@.len() ==> call_ensures(
                        f,
                        (),
                        #[trigger] final(self)@[i],
                    )
                &&& (r is Ok <==> old(self).fitting_pushes(missing) == missing)
                &&& (r is Ok <==> old(self).fits(missing))
                &&& (r is Err ==> r == Err::<(), Error>(Error::OutOfMemoryAddresses))
            },
    {
        if new_len <= self.items.len() {
            self.truncate(new_len);
            return Ok(());
        }
        let ghost start = *self;
        let ghost missing = (new_len - start@.len()) as nat;
        proof {
            self.lemma_room(missing);
        }
        let mut make = f;
        while self.items.len() < new_len
            invariant
                self.wf(),
                start.wf(),
                start == *old(self),
                start.fitting_pushes(missing) == missing <==> start.fits(missing),
                make == f,
                call_requires(f, ()),
                start@.len() <= self@.len() <= new_len,
                missing == new_len - start@.len(),
                self.spec_reserved_memory() == start.spec_reserved_memory(),
                self.spec_page_size() == start.spec_page_size(),
                self@.take(start@.len() as int) == start@,
                forall|j: int|
                    start@.len() <= j < self@.len() ==> call_ensures(f, (), #[trigger] self@[j]),
                start.fitting_pushes(missing) == (self@.len() - start@.len())
                    + self.fitting_pushes((new_len - self@.len()) as nat),
                start.capacity_after(missing) == self.capacity_after(
                    (new_len - self@.len()) as nat,
                ),
            decreases new_len - self@.len(),
        {
            let ghost before = *self;
            let val = make();
            match self.try_push(val) {
                Ok(()) => {
                    proof {
                        Self::lemma_push_step(before, *self, (new_len - before@.len()) as nat);
                        assert(self@.take(start@.len() as int) =~= before@.take(
                            start@.len() as int,
                        ));
                    }
                },
                Err(e) => {
                    return Err(e);
                },
            }
        }
        Ok(())
    }

    /// Brings the vector to `new_len` elements: a longer vector is cut, a
    /// shorter one is filled with what `f` returns, call by call. The new
    /// elements must fit in the reservation.
    pub fn resize_with<F>(&mut self, new_len: usize, f: F) where F: FnMut() -> T
        requires
            old(self).wf(),
            call_requires(f, ()),
            new_len > old(self)@.len() ==> old(self).fits((new_len - old(self)@.len()) as nat),
        ensures
            final(self).wf(),
            final(self).spec_reserved_memory() == old(self).spec_reserved_memory(),
            final(self).spec_page_size() == old(self).spec_page_size(),
            old(self).spec_capacity() <= final(self).spec_capacity(),
            final(self)@.len() == new_len,
            new_len <= old(self)@.len() ==> final(self)@ == old(self)@.take(new_len as int)
                && final(self).spec_capacity() == old(self).spec_capacity(),
            new_len > old(self)@.len() ==> {
                &&& final(self).spec_capacity() == old(self).capacity_after(
                    (new_len - old(self)@.len()) as nat,
                )
                &&& final(self)@.take(old(self)@.len() as int) == old(self)@
                &&& forall|i: int|
                    old(self)@.len() <= i < new_len ==> call_ensures(
                        f,
                        (),
                        #[trigger] final(self)@[i],
                    )
            },
    {
        proof {
            if new_len > self@.len() {
                self.lemma_room((new_len - self@.len()) as nat);
            }
        }
        let _ = self.try_resize_with(new_len, f);
    }

    /// Brings the vector to `new_len` elements: a longer vector is cut, a
    /// shorter one is filled with clones of `value`, up to the first one
    /// that the reservation cannot take.
    pub fn try_resize(&mut self, new_len: usize, value: T) -> (r: Result<(), Error>) where T: Clone
        requires
            old(self).wf(),
        ensures
            final(self).wf(),
            final(self).spec_reserved_memory() == old(self).spec_reserved_memory(),
            final(self).spec_page_size() == old(self).spec_page_size(),
            new_len <= old(self)@.len() ==> r is Ok && final(self)@ == old(self)@.take(
                new_len as int,
            ) && final(self).spec_capacity() == old(self).spec_capacity(),
            new_len > old(self)@.len() ==> {
                let missing = (new_len - old(self)@.len()) as nat;
                &&& final(self).spec_capacity() == old(self).capacity_after(missing)
                &&& final(self)@.len() == old(self)@.len() + old(self).fitting_pushes(missing)
                &&& final(self)@.take(old(self)@.len() as int) == old(self)@
                &&& forall|i: int|
                    old(self)@.len() <= i < final(self)@.len() ==> cloned(
                        value,
                        #[trigger] final(self)@[i],
                    )
                &&& (r is Ok <==> old(self).fitting_pushes(missing) == missing)
                &&& (r is Ok <==> old(self).fits(missing))
                &&& (r is Err ==> r == Err::<(), Error>(Error::OutOfMemoryAddresses))
            },
    {
        if new_len <= self.items.len() {
            self.truncate(new_len);
            return Ok(());
        }
        let ghost start = *self;
        let ghost missing = (new_len - start@.len()) as nat;
        proof {
            self.lemma_room(missing);
        }
        while self.items.len() < new_len
            invariant
                self.wf(),
                start.wf(),
                start == *old(self),
                start.fitting_pushes(missing) == missing <==> start.fits(missing),
                start@.len() <= self@.len() <= new_len,
                missing == new_len - start@.len(),
                self.spec_reserved_memory() == start.spec_reserved_memory(),
                self.spec_page_size() == start.spec_page_size(),
                self@.take(start@.len() as int) == start@,
                forall|j: int| start@.len() <= j < self@.len() ==> cloned(value, #[trigger] self@[j]),
                start.fitting_pushes(missing) == (self@.len() - start@.len())
                    + self.fitting_pushes((new_len - self@.len()) as nat),
                start.capacity_after(missing) == self.capacity_after(
                    (new_len - self@.len()) as nat,
                ),
            decreases new_len - self@.len(),
        {
            let ghost before = *self;
            let val = value.clone();
            match self.try_push(val) {
                Ok(()) => {
                    proof {
                        Self::lemma_push_step(before, *self, (new_len - before@.len()) as nat);
                        assert(self@.take(start@.len() as int) =~= before@.take(
                            start@.len() as int,
                        ));
                    }
                },
                Err(e) => {
                    return Err(e);
                },
            }
        }
        Ok(())
    }

    /// Brings the vector to `new_len` elements: a longer vector is cut, a
    /// shorter one is filled with clones of `value`, which must fit in the
    /// reservation.
    pub fn resize(&mut self, new_len: usize, value: T) where T: Clone
        requires
            old(self).wf(),
            new_len > old(self)@.len() ==> old(self).fits((new_len - old(self)@.len()) as nat),
        ensures
            final(self).wf(),
            final(self).spec_reserved_memory() == old(self).spec_reserved_memory(),
            final(self).spec_page_size() == old(self).spec_page_size(),
            old(self).spec_capacity() <= final(self).spec_capacity(),
            final(self)@.len() == new_len,
            new_len <= old(self)@.len() ==> final(self)@ == old(self)@.take(new_len as int)
                && final(self).spec_capacity() == old(self).spec_capacity(),
            new_len > old(self)@.len() ==> {
                &&& final(self).spec_capacity() == old(self).capacity_after(
                    (new_len - old(self)@.len()) as nat,
                )
                &&& final(self)@.take(old(self)@.len() as int) == old(self)@
                &&& forall|i: int|
                    old(self)@.len() <= i < new_len ==> cloned(value, #[trigger] final(self)@[i])
            },
    {
        proof {
            if new_len > self@.len() {
                self.lemma_room((new_len - self@.len()) as nat);
            }
        }
        let _ = self.try_resize(new_len, value);
    }

    /// Appends clones of the elements at `start..end`, in order. The range
    /// is read while the vector grows, so it may reach into what the call
    /// itself has appended. An empty range changes nothing; a range that
    /// starts behind the last element is refused.
    pub fn try_extend_from_within(&mut self, start: usize, end: usize) -> (r: Result<
        (),
        Error,
    >) where T: Clone
        requires
            old(self).wf(),
        ensures
            final(self).wf(),
            final(self).spec_reserved_memory() == old(self).spec_reserved_memory(),
            final(self).spec_page_size() == old(self).spec_page_size(),
            start >= end ==> r is Ok && final(self)@ == old(self)@ && final(self).spec_capacity()
                == old(self).spec_capacity(),
            start < end && start >= old(self)@.len() ==> r == Err::<(), Error>(
                Error::IndexOutOfBounds,
            ) && final(self)@ == old(self)@ && final(self).spec_capacity() == old(self).spec_capacity(),
            start < end && start < old(self)@.len() ==> {
                let count = (end - start) as nat;
                &&& final(self).spec_capacity() == old(self).capacity_after(count)
                &&& final(self)@.len() == old(self)@.len() + old(self).fitting_pushes(count)
                &&& final(self)@.take(old(self)@.len() as int) == old(self)@
                &&& forall|i: int|
                    0 <= i < old(self).fitting_pushes(count) ==> cloned(
                        final(self)@[start + i],
                        #[trigger] final(self)@[old(self)@.len() + i],
                    )
                &&& (r is Ok <==> old(self).fitting_pushes(count) == count)
                &&& (r is Ok <==> old(self).fits(count))
                &&& (r is Err ==> r == Err::<(), Error>(Error::OutOfMemoryAddresses))
            },
    {
        if start >= end {
            return Ok(());
        }
        if start >= self.items.len() {
            return Err(Error::IndexOutOfBounds);
        }
        let ghost first = *self;
        let ghost count = (end - start) as nat;
        proof {
            self.lemma_room(count);
        }
        let mut idx: usize = start;
        while idx < end
            invariant
                self.wf(),
                first.wf(),
                first == *old(self),
                first.fitting_pushes(count) == count <==> first.fits(count),
                start < first@.len(),
                start <= idx <= end,
                count == end - start,
                self.spec_reserved_memory() == first.spec_reserved_memory(),
                self.spec_page_size() == first.spec_page_size(),
                self@.len() == first@.len() + (idx - start),
                self@.take(first@.len() as int) == first@,
                forall|j: int|
                    0 <= j < idx - start ==> cloned(
                        self@[start + j],
                        #[trigger] self@[first@.len() + j],
                    ),
                first.fitting_pushes(count) == (idx - start) + self.fitting_pushes(
                    (end - idx) as nat,
                ),
                first.capacity_after(count) == self.capacity_after((end - idx) as nat),
            decreases end - idx,
        {
            let ghost before = *self;
            let val = self.items[idx].clone();
            match self.try_push(val) {
                Ok(()) => {
                    proof {
                        Self::lemma_push_step(before, *self, (end - idx) as nat);
                        assert(self@.take(first@.len() as int) =~= before@.take(
                            first@.len() as int,
                        ));
                    }
                },
                Err(e) => {
                    return Err(e);
                },
            }
            idx = idx + 1;
        }
        Ok(())
    }

    /// Appends clones of the elements at `start..end`, in order. The range
    /// must not start behind the last element, and the clones must fit in
    /// the reservation.
    pub fn extend_from_within(&mut self, start: usize, end: usize) where T: Clone
        requires
            old(self).wf(),
            start < end ==> start < old(self)@.len() && old(self).fits((end - start) as nat),
        ensures
            final(self).wf(),
            final(self).spec_reserved_memory() == old(self).spec_reserved_memory(),
            final(self).spec_page_size() == old(self).spec_page_size(),
            old(self).spec_capacity() <= final(self).spec_capacity(),
            start >= end ==> final(self)@ == old(self)@ && final(self).spec_capacity() == old(self).spec_capacity(),
            start < end ==> {
                &&& final(self).spec_capacity() == old(self).capacity_after((end - start) as nat)
                &&& final(self)@.len() == old(self)@.len() + (end - start)
                &&& final(self)@.take(old(self)@.len() as int) == old(self)@
                &&& forall|i: int|
                    0 <= i < end - start ==> cloned(
                        final(self)@[start + i],
                        #[trigger] final(self)@[old(self)@.len() + i],
                    )
            },
    {
        proof {
            if start < end {
                self.lemma_room((end - start) as nat);
            }
        }
        let _ = self.try_extend_from_within(start, end);
    }

    /// Appends the elements of `items`, in order, up to the first one that
    /// the reservation cannot take. Where there are more of them than
    /// [`ArenaVec::remaining_space`] counts, none is appended.
    pub fn try_extend(&mut self, items: Vec<T>) -> (r: Result<(), Error>)
        requires
            old(self).wf(),
            Self::elem_size() > 0,
        ensures
            final(self).wf(),
            final(self).spec_reserved_memory() == old(self).spec_reserved_memory(),
            final(self).spec_page_size() == old(self).spec_page_size(),
            items@.len() > old(self).spec_remaining_space() ==> r == Err::<(), Error>(
                Error::OutOfMemoryAddresses,
            ) && final(self)@ == old(self)@ && final(self).spec_capacity() == old(self).spec_capacity(),
            items@.len() <= old(self).spec_remaining_space() ==> {
                &&& final(self).spec_capacity() == old(self).capacity_after(items@.len())
                &&& final(self)@ == old(self)@ + items@.take(
                    old(self).fitting_pushes(items@.len()) as int,
                )
                &&& (r is Ok <==> old(self).fitting_pushes(items@.len()) == items@.len())
                &&& (r is Ok <==> old(self).fits(items@.len()))
                &&& (r is Err ==> r == Err::<(), Error>(Error::OutOfMemoryAddresses))
            },
    {
        if items.len() > self.remaining_space() {
            return Err(Error::OutOfMemoryAddresses);
        }
        let ghost first = *self;
        let ghost all = items@;
        proof {
            self.lemma_room(all.len());
        }
        let mut rest = reversed(items);
        while rest.len() > 0
            invariant
                self.wf(),
                first.wf(),
                first == *old(self),
                first.fitting_pushes(all.len()) == all.len() <==> first.fits(all.len()),
                all == items@,
                all.len() <= first.spec_remaining_space(),
                rest@.len() <= all.len(),
                rest@ == all.skip(all.len() - rest@.len()).reverse(),
                self.spec_reserved_memory() == first.spec_reserved_memory(),
                self.spec_page_size() == first.spec_page_size(),
                self@ == first@ + all.take(all.len() - rest@.len()),
                first.fitting_pushes(all.len()) == (all.len() - rest@.len())
                    + self.fitting_pushes(rest@.len()),
                first.capacity_after(all.len()) == self.capacity_after(rest@.len()),
            decreases rest@.len(),
        {
            let ghost before = *self;
            let ghost left = rest@.len();
            let val = rest.pop().unwrap();
            proof {
                let tail = all.skip(all.len() - left);
                assert(tail.reverse().last() == tail[0]);
                assert(val == all[all.len() - left]);
                assert(rest@ =~= all.skip(all.len() - left + 1).reverse());
            }
            match self.try_push(val) {
                Ok(()) => {
                    proof {
                        Self::lemma_push_step(before, *self, left);
                        assert(self@ =~= first@ + all.take(all.len() - left + 1));
                    }
                },
                Err(e) => {
                    return Err(e);
                },
            }
        }
        proof {
            assert(all.take(all.len() as int) =~= all);
        }
        Ok(())
    }

    /// Removes every element for which `f` answers `true`, and keeps the
    /// others in their order. The elements are asked one by one, from the
    /// first to the last.
    pub fn retain<F>(&mut self, f: F) where F: FnMut(&T) -> bool
        requires
            old(self).wf(),
            forall|i: int| 0 <= i < old(self)@.len() ==> call_requires(f, (&old(self)@[i],)),
        ensures
            final(self).wf(),
            final(self).spec_capacity() == old(self).spec_capacity(),
            final(self).spec_reserved_memory() == old(self).spec_reserved_memory(),
            final(self).spec_page_size() == old(self).spec_page_size(),
            exists|removed: Seq<bool>|
                {
                    &&& removed.len() == old(self)@.len()
                    &&& forall|i: int|
                        0 <= i < removed.len() ==> call_ensures(
                            f,
                            (&old(self)@[i],),
                            #[trigger] removed[i],
                        )
                    &&& final(self)@ == kept(old(self)@, removed)
                },
    {
        let ghost first = *self;
        let ghost mut removed: Seq<bool> = Seq::empty();
        let mut ask = f;
        let mut idx: usize = 0;
        while idx < self.items.len()
            invariant
                self.wf(),
                first == *old(self),
                ask == f,
                forall|i: int| 0 <= i < first@.len() ==> call_requires(f, (&first@[i],)),
                self.spec_capacity() == first.spec_capacity(),
                self.spec_reserved_memory() == first.spec_reserved_memory(),
                self.spec_page_size() == first.spec_page_size(),
                removed.len() <= first@.len(),
                idx <= self@.len(),
                self@.len() - idx == first@.len() - removed.len(),
                forall|i: int|
                    0 <= i < removed.len() ==> call_ensures(f, (&first@[i],), #[trigger] removed[i]),
                self@ == kept(first@.take(removed.len() as int), removed) + first@.skip(
                    removed.len() as int,
                ),
                idx == kept(first@.take(removed.len() as int), removed).len(),
            decreases self@.len() - idx,
        {
            let ghost done = removed.len() as int;
            let ghost before = self@;
            assert(self@[idx as int] == first@[done]);
            let remove = ask(&self.items[idx]);
            let ghost asked = removed;
            proof {
                removed = asked.push(remove);
                assert(first@.take(done + 1).drop_last() =~= first@.take(done));
                assert(removed.drop_last() =~= asked);
                assert(first@.take(done + 1).last() == first@[done]);
                assert(kept(first@.take(done + 1), removed) == if remove {
                    kept(first@.take(done), asked)
                } else {
                    kept(first@.take(done), asked).push(first@[done])
                });
                assert(first@.skip(done) =~= seq![first@[done]] + first@.skip(done + 1));
            }
            if remove {
                let _ = self.remove(idx);
                proof {
                    assert(self@ =~= kept(first@.take(done + 1), removed) + first@.skip(done + 1));
                }
            } else {
                idx = idx + 1;
                proof {
                    assert(self@ =~= kept(first@.take(done + 1), removed) + first@.skip(done + 1));
                }
            }
        }
        proof {
            assert(first@.take(removed.len() as int) =~= first@);
            assert(self@ =~= kept(first@, removed));
        }
    }

    /// Hands every element to `f`, which may change it, removes those for
    /// which `f` answers `true`, and keeps the others in their order. The
    /// elements are handed over one by one, from the first to the last.
    pub fn retain_mut<F>(&mut self, f: F) where F: FnMut(&mut T) -> bool
        requires
            old(self).wf(),
            forall|x: &mut T| call_requires(f, (x,)),
        ensures
            final(self).wf(),
            final(self).spec_capacity() == old(self).spec_capacity(),
            final(self).spec_reserved_memory() == old(self).spec_reserved_memory(),
            final(self).spec_page_size() == old(self).spec_page_size(),
            exists|removed: Seq<bool>, after: Seq<T>|
                #![trigger kept(after, removed)]
                {
                    &&& removed.len() == old(self)@.len()
                    &&& after.len() == old(self)@.len()
                    &&& forall|i: int|
                        0 <= i < removed.len() ==> (if #[trigger] removed[i] {
                            exists|x: &mut T|
                                *x == old(self)@[i] && *final(x) == after[i] && #[trigger] call_ensures(
                                    f,
                                    (x,),
                                    true,
                                )
                        } else {
                            exists|x: &mut T|
                                *x == old(self)@[i] && *final(x) == after[i] && #[trigger] call_ensures(
                                    f,
                                    (x,),
                                    false,
                                )
                        })
                    &&& final(self)@ == kept(after, removed)
                },
    {
        let ghost first = *self;
        let ghost mut removed: Seq<bool> = Seq::empty();
        let ghost mut after: Seq<T> = Seq::empty();
        let mut ask = f;
        let mut idx: usize = 0;
        while idx < self.items.len()
            invariant
                self.wf(),
                first == *old(self),
                ask == f,
                forall|x: &mut T| call_requires(f, (x,)),
                self.spec_capacity() == first.spec_capacity(),
                self.spec_reserved_memory() == first.spec_reserved_memory(),
                self.spec_page_size() == first.spec_page_size(),
                removed.len() <= first@.len(),
                after.len() == removed.len(),
                idx <= self@.len(),
                self@.len() - idx == first@.len() - removed.len(),
                forall|i: int|
                    0 <= i < removed.len() ==> (if #[trigger] removed[i] {
                            exists|x: &mut T|
                                *x == first@[i] && *final(x) == after[i] && #[trigger] call_ensures(
                                    f,
                                    (x,),
                                    true,
                                )
                        } else {
                            exists|x: &mut T|
                                *x == first@[i] && *final(x) == after[i] && #[trigger] call_ensures(
                                    f,
                                    (x,),
                                    false,
                                )
                        }),
                self@ == kept(after, removed) + first@.skip(removed.len() as int),
                idx == kept(after, removed).len(),
            decreases self@.len() - idx,
        {
            let ghost done = removed.len() as int;
            assert(self@[idx as int] == first@[done]);
            let ghost asked = removed;
            let ghost left = after;
            let ghost size = self@.len();
            let remove = ask(&mut self.items[idx]);
            proof {
                let now = self@[idx as int];
                assert(exists|x: &mut T|
                    #[trigger] call_ensures(f, (x,), remove) && *x == first@[done] && *final(x)
                        == now);
                removed = asked.push(remove);
                after = left.push(now);
                assert(removed.drop_last() =~= asked);
                assert(after.drop_last() =~= left);
                assert(first@.skip(done) =~= seq![first@[done]] + first@.skip(done + 1));
                assert(self@.len() == size);
                assert forall|i: int| 0 <= i < removed.len() implies (if #[trigger] removed[i] {
                            exists|x: &mut T|
                                *x == first@[i] && *final(x) == after[i] && #[trigger] call_ensures(
                                    f,
                                    (x,),
                                    true,
                                )
                        } else {
                            exists|x: &mut T|
                                *x == first@[i] && *final(x) == after[i] && #[trigger] call_ensures(
                                    f,
                                    (x,),
                                    false,
                                )
                        }) by {
                    if i < done {
                        assert(removed[i] == asked[i]);
                        assert(after[i] == left[i]);
                    } else {
                        assert(removed[i] == remove);
                        assert(after[i] == now);
                    }
                }
            }
            if remove {
                let _ = self.remove(idx);
                proof {
                    assert(self@ =~= kept(after, removed) + first@.skip(done + 1));
                }
            } else {
                idx = idx + 1;
                proof {
                    assert(self@ =~= kept(after, removed) + first@.skip(done + 1));
                }
            }
        }
        proof {
            assert(first@.skip(removed.len() as int) =~= Seq::<T>::empty());
            assert(self@ =~= kept(after, removed));
        }
    }

    /// A cursor over the elements, from the first to the last.
    pub fn iter(&self) -> (iter: Iter<'_, T>)
        ensures
            iter.source() == self@,
            iter.position() == 0,
    {
        Iter { arena_vec: self, idx: 0 }
    }

    /// A cursor that hands out the elements for change, from the first to
    /// the last.
    pub fn iter_mut(&mut self) -> (iter: IterMut<'_, T>)
        ensures
            *iter.arena_vec == *old(self),
            *final(iter.arena_vec) == *final(self),
            iter.idx == 0,
    {
        IterMut { arena_vec: self, idx: 0 }
    }

    /// Takes every element out of the vector and hands them to a cursor
    /// that gives them out from the first to the last. The vector is empty
    /// afterwards, however far the cursor is walked; its committed memory
    /// stays.
    pub fn drain(&mut self) -> (drain: Drain<T>)
        requires
            old(self).wf(),
        ensures
            final(self).wf(),
            drain@ == old(self)@,
            final(self)@.len() == 0,
            final(self).spec_capacity() == old(self).spec_capacity(),
            final(self).spec_reserved_memory() == old(self).spec_reserved_memory(),
            final(self).spec_page_size() == old(self).spec_page_size(),
    {
        proof {
            Self::lemma_used_monotonic(0, self.items@.len() as int);
        }
        let mut items: Vec<T> = Vec::new();
        core::mem::swap(&mut self.items, &mut items);
        let rest = reversed(items);
        proof {
            assert(rest@.reverse() =~= old(self)@);
        }
        Drain { rest }
    }

    /// Turns the vector into a cursor that gives its elements out from the
    /// first to the last.
    pub fn into_iter(self) -> (iter: IntoIter<T>)
        ensures
            iter@ == self@,
    {
        let rest = reversed(self.items);
        proof {
            assert(rest@.reverse() =~= self@);
        }
        IntoIter { rest }
    }

    /// A vector takes elements up to its reservation: all of `count`
    /// pushes fit exactly where the reservation has room for them, and
    /// what they commit stays inside the reservation.
    pub proof fn lemma_room(&self, count: nat)
        requires
            self.wf(),
        ensures
            self.fitting_pushes(count) == count <==> self.fits(count),
            self.fitting_pushes(count) <= count,
            self.spec_capacity() <= self.capacity_after(count) <= self.spec_reserved_memory(),
            self.capacity_after_push() is Some <==> self.fits(1),
            self.capacity_after_push() matches Some(c) ==> self.spec_capacity() <= c
                <= self.spec_reserved_memory(),
    {
        self.lemma_wf();
        self.lemma_holds(self.used_memory() + Self::elem_size());
        assert(1 * Self::elem_size() == Self::elem_size()) by (nonlinear_arith);
        lemma_fit_reservation(
            self.used_memory(),
            self.spec_capacity(),
            self.spec_reserved_memory(),
            Self::elem_size(),
            self.spec_page_size(),
            count,
        );
    }

    /// A vector holds `additional` more elements exactly where its
    /// reservation has room for them.
    pub proof fn lemma_needed(&self, additional: nat)
        requires
            self.wf(),
        ensures
            self.capacity_to_hold((self@.len() + additional) * Self::elem_size()) is Some
                <==> self.fits(additional),
            self.capacity_to_hold((self@.len() + additional) * Self::elem_size()) matches Some(c)
                ==> self.spec_capacity() <= c <= self.spec_reserved_memory() && (self@.len()
                + additional) * Self::elem_size() <= c,
    {
        let needed = (self@.len() + additional) * Self::elem_size();
        assert(needed == self.used_memory() + additional * Self::elem_size() && needed >= 0)
            by (nonlinear_arith)
            requires
                needed == (self@.len() + additional) * Self::elem_size(),
                self.used_memory() == self@.len() * Self::elem_size(),
                Self::elem_size() >= 0,
        ;
        self.lemma_holds(needed);
    }

    /// A vector holds `needed` bytes exactly where its reservation does;
    /// the committed size with which it holds them is no less than the
    /// present one and no more than the reservation.
    pub proof fn lemma_holds(&self, needed: int)
        requires
            self.wf(),
            needed >= 0,
        ensures
            self.capacity_to_hold(needed) is Some <==> needed <= self.spec_reserved_memory(),
            self.capacity_to_hold(needed) matches Some(c) ==> self.spec_capacity() <= c
                <= self.spec_reserved_memory() && needed <= c,
    {
        self.lemma_wf();
        lemma_capacity_for(
            self.used_memory(),
            self.spec_capacity(),
            self.spec_reserved_memory(),
            Self::elem_size(),
            self.spec_page_size(),
            needed,
        );
    }

    /// Fewer elements never occupy more bytes.
    proof fn lemma_used_monotonic(fewer: int, more: int)
        requires
            0 <= fewer <= more,
        ensures
            0 <= fewer * size_of::<T>() <= more * size_of::<T>(),
    {
        assert(0 <= fewer * size_of::<T>() <= more * size_of::<T>()) by (nonlinear_arith)
            requires
                0 <= fewer <= more,
                size_of::<T>() >= 0,
        ;
    }

    /// Address stability: a push within the reservation leaves every
    /// element that was there at the offset and with the value it had, in
    /// memory that was committed before and stays committed.
    pub proof fn lemma_push_keeps_addresses(before: Self, after: Self, val: T, idx: int)
        requires
            before.wf(),
            before.fits(1),
            after@ == before@.push(val),
            0 <= idx < before@.len(),
        ensures
            idx < after@.len(),
            after@[idx] == before@[idx],
            Self::offset_of(idx) + Self::elem_size() <= before.spec_capacity(),
            before.capacity_after_push() is Some,
            before.spec_capacity() <= before.capacity_after_push().unwrap(),
    {
        before.lemma_room(1);
        Self::lemma_used_monotonic(idx + 1, before.items@.len() as int);
        assert((idx + 1) * size_of::<T>() == idx * size_of::<T>() + size_of::<T>())
            by (nonlinear_arith);
    }
}

impl ArenaVec<u8> {
    /// Appends `bytes`, in order, up to the first byte that the reservation
    /// cannot take.
    pub fn try_extend_from_bytes(&mut self, bytes: &[u8]) -> (r: Result<(), Error>)
        requires
            old(self).wf(),
        ensures
            final(self).wf(),
            final(self).spec_reserved_memory() == old(self).spec_reserved_memory(),
            final(self).spec_page_size() == old(self).spec_page_size(),
            final(self).spec_capacity() == old(self).capacity_after(bytes@.len()),
            final(self)@ == old(self)@ + bytes@.take(old(self).fitting_pushes(bytes@.len()) as int),
            old(self).fitting_pushes(bytes@.len()) <= bytes@.len(),
            r is Ok <==> old(self).fitting_pushes(bytes@.len()) == bytes@.len(),
            r is Ok <==> old(self).fits(bytes@.len()),
            r is Err ==> r == Err::<(), Error>(Error::OutOfMemoryAddresses),
    {
        proof {
            self.lemma_room(bytes@.len());
        }
        let r = self.try_extend_from_slice(bytes);
        proof {
            let fit = old(self).fitting_pushes(bytes@.len());
            assert(fit <= bytes@.len()) by {
                lemma_fit_bounded(
                    old(self).used_memory(),
                    old(self).spec_capacity(),
                    old(self).spec_reserved_memory(),
                    Self::elem_size(),
                    old(self).spec_page_size(),
                    bytes@.len(),
                );
            }
            assert forall|i: int| 0 <= i < fit implies self@[old(self)@.len() + i] == bytes@[i] by {
                assert(cloned(bytes@[i], self@[old(self)@.len() + i]));
            }
            assert(self@.take(old(self)@.len() as int) == old(self)@);
            assert forall|i: int| 0 <= i < old(self)@.len() implies self@[i] == old(self)@[i] by {
                assert(self@.take(old(self)@.len() as int)[i] == self@[i]);
            }
            assert(self@ =~= old(self)@ + bytes@.take(fit as int));
        }
        r
    }
}

impl ArenaVec<u8> {
    /// Appends `bytes` where the reservation takes them all, and nothing
    /// where it does not. The committed size grows either way as far as it
    /// takes to hold as many of the bytes as fit.
    pub fn try_write_all(&mut self, bytes: &[u8]) -> (r: Result<(), Error>)
        requires
            old(self).wf(),
        ensures
            final(self).wf(),
            final(self).spec_reserved_memory() == old(self).spec_reserved_memory(),
            final(self).spec_page_size() == old(self).spec_page_size(),
            final(self).spec_capacity() == old(self).capacity_after(bytes@.len()),
            r is Ok <==> old(self).fitting_pushes(bytes@.len()) == bytes@.len(),
            r is Ok <==> old(self).fits(bytes@.len()),
            r is Ok ==> final(self)@ == old(self)@ + bytes@,
            r is Err ==> r == Err::<(), Error>(Error::OutOfMemoryAddresses) && final(self)@ == old(self)@,
    {
        proof {
            self.lemma_room(bytes@.len());
        }
        let before = self.items.len();
        match self.try_extend_from_bytes(bytes) {
            Ok(()) => {
                proof {
                    assert(bytes@.take(bytes@.len() as int) =~= bytes@);
                }
                Ok(())
            },
            Err(e) => {
                self.truncate(before);
                proof {
                    assert(self@ =~= old(self)@);
                }
                Err(e)
            },
        }
    }
}

/// The cursor returned by [`ArenaVec::iter`].
pub struct Iter<'a, T> {
    arena_vec: &'a ArenaVec<T>,
    idx: usize,
}

impl<'a, T> Iter<'a, T> {
    /// The elements of the vector that the cursor walks.
    pub closed spec fn source(&self) -> Seq<T> {
        self.arena_vec@
    }

    /// The index of the element that comes next.
    pub closed spec fn position(&self) -> int {
        self.idx as int
    }

    /// The element under the cursor, which then moves on; `None` behind
    /// the last element.
    pub fn next(&mut self) -> (r: Option<&'a T>)
        ensures
            final(self).source() == old(self).source(),
            old(self).position() < old(self).source().len() ==> r == Some(
                &old(self).source()[old(self).position()],
            ) && final(self).position() == old(self).position() + 1,
            old(self).position() >= old(self).source().len() ==> r is None && final(self).position() == old(self).position(),
    {
        let idx = self.idx;
        if idx < self.arena_vec.len() {
            self.idx = idx + 1;
        }
        self.arena_vec.get(idx)
    }
}

/// The cursor returned by [`ArenaVec::iter_mut`].
pub struct IterMut<'a, T> {
    /// The vector that the cursor walks.
    pub arena_vec: &'a mut ArenaVec<T>,
    /// The index of the element that comes next.
    pub idx: usize,
}

impl<'a, T> IterMut<'a, T> {
    /// The element under the cursor, which then moves on; `None` behind
    /// the last element.
    pub fn next(&mut self) -> (r: Option<&mut T>)
        requires
            old(self).arena_vec.wf(),
        ensures
            *final(final(self).arena_vec) == *final(old(self).arena_vec),
            final(self).arena_vec.wf(),
            final(self).arena_vec.spec_capacity() == old(self).arena_vec.spec_capacity(),
            final(self).arena_vec.spec_reserved_memory() == old(self).arena_vec.spec_reserved_memory(),
            final(self).arena_vec.spec_page_size() == old(self).arena_vec.spec_page_size(),
            old(self).idx < old(self).arena_vec@.len() ==> r is Some && *r.unwrap() == old(self).arena_vec@[old(self).idx as int] && final(self).arena_vec@ == old(self).arena_vec@.update(old(self).idx as int, *final(r.unwrap())) && final(self).idx
                == old(self).idx + 1,
            old(self).idx >= old(self).arena_vec@.len() ==> r is None && final(self).arena_vec@
                == old(self).arena_vec@ && final(self).idx == old(self).idx,
    {
        let idx = self.idx;
        if idx < self.arena_vec.len() {
            self.idx = idx + 1;
        }
        self.arena_vec.get_mut(idx)
    }
}

/// The cursor returned by [`ArenaVec::drain`].
pub struct Drain<T> {
    /// What is left to give out, last element first.
    rest: Vec<T>,
}

impl<T> View for Drain<T> {
    type V = Seq<T>;

    /// The elements that are left, in the order in which they come out.
    closed spec fn view(&self) -> Seq<T> {
        self.rest@.reverse()
    }
}

impl<T> Drain<T> {
    /// The next element, or `None` once all are out.
    pub fn next(&mut self) -> (r: Option<T>)
        ensures
            old(self)@.len() > 0 ==> r == Some(old(self)@[0]) && final(self)@ == old(self)@.skip(1),
            old(self)@.len() == 0 ==> r is None && final(self)@ == old(self)@,
    {
        let r = self.rest.pop();
        proof {
            if old(self).rest@.len() > 0 {
                assert(self.rest@.reverse() =~= old(self).rest@.reverse().skip(1));
            }
        }
        r
    }
}

/// The cursor returned by [`ArenaVec::into_iter`].
pub struct IntoIter<T> {
    /// What is left to give out, last element first.
    rest: Vec<T>,
}

impl<T> View for IntoIter<T> {
    type V = Seq<T>;

    /// The elements that are left, in the order in which they come out.
    closed spec fn view(&self) -> Seq<T> {
        self.rest@.reverse()
    }
}

impl<T> IntoIter<T> {
    /// The next element, or `None` once all are out.
    pub fn next(&mut self) -> (r: Option<T>)
        ensures
            old(self)@.len() > 0 ==> r == Some(old(self)@[0]) && final(self)@ == old(self)@.skip(1),
            old(self)@.len() == 0 ==> r is None && final(self)@ == old(self)@,
    {
        let r = self.rest.pop();
        proof {
            if old(self).rest@.len() > 0 {
                assert(self.rest@.reverse() =~= old(self).rest@.reverse().skip(1));
            }
        }
        r
    }
}

impl<T> Default for ArenaVec<T> {
    fn default() -> (v: Self)
        ensures
            v.wf(),
            v@.len() == 0,
            v.spec_capacity() == 0,
            v.spec_reserved_memory() == Self::spec_default_reserved_memory(),
            v.spec_page_size() == DEFAULT_PAGE_SIZE,
            v.spec_reserved_memory() % DEFAULT_PAGE_SIZE as int == 0,
    {
        Self::new()
    }
}

} // verus!

