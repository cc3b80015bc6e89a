//! Module for [`Warehouse`].

use crate::datatypes::arenavec::ArenaVec;
use crate::datatypes::stackvec::StackVec;
use crate::datatypes::typemap::TypeMap;
use crate::utils::align_up;
use vstd::prelude::*;

verus! {

/// A trait for "resetting" a value to the state in which it was made.
///
/// After calling [`Reset::reset`], a value should more or less be as it was
/// when it was new, so that it can be reused in the future.
pub trait Reset {
    /// Reset the value - see the [`Reset`] docs.
    fn reset(&mut self);
}

impl Reset for TypeMap {
    fn reset(&mut self)
        ensures
            old(self).wf() ==> final(self).wf(),
            final(self)@ == Map::<crate::datatypes::typemap::PubTypeId, Seq<u8>>::empty(),
    {
        self.clear();
    }
}

impl<T> Reset for ArenaVec<T> {
    fn reset(&mut self)
        ensures
            old(self).wf() ==> final(self).wf(),
            final(self)@.len() == 0,
    {
        self.clear();
    }
}

impl<T, const SIZE: usize> Reset for StackVec<T, SIZE> {
    fn reset(&mut self)
        ensures
            final(self).wf(),
            final(self)@.len() == 0,
    {
        self.clear();
    }
}

impl<T> Reset for Vec<T> {
    fn reset(&mut self)
        ensures
            final(self)@.len() == 0,
    {
        self.clear();
    }
}

/// A storage system that allows taking temporary ownership of instances of
/// a type `T`. Instead of borrowing `T`, an instance of `T` is moved out of
/// the [`Warehouse`], to be returned later.
///
/// The warehouse stores instances of `T` in an [`ArenaVec`]. If the
/// warehouse has an instance stored, [`Warehouse::take_instance`] hands out
/// the one that was returned first; otherwise, it makes a new instance.
/// An instance is reset when it is returned.
pub struct Warehouse<T: Default + Reset> {
    storage: ArenaVec<T>,
}

impl<T: Default + Reset> Warehouse<T> {
    /// The instances in store, the one that is handed out next first.
    pub closed spec fn stored(&self) -> Seq<T> {
        self.storage@
    }

    /// The invariant of the warehouse: that of its store.
    pub closed spec fn wf(&self) -> bool {
        self.storage.wf()
    }

    /// Whether the warehouse can take one more instance: whether the
    /// reservation of its store has room for it.
    pub closed spec fn spec_has_room(&self) -> bool {
        self.storage.fits(1)
    }

    /// Whether the warehouse can take one more instance: whether the
    /// reservation of its store has room for it.
    #[verifier::when_used_as_spec(spec_has_room)]
    pub fn has_room(&self) -> (room: bool)
        requires
            self.wf(),
        ensures
            room == self.spec_has_room(),
    {
        self.storage.has_room(1)
    }

    /// Creates a new [`Warehouse`] backed by an [`ArenaVec`] that has the
    /// given reserved memory.
    pub fn with_reserved_memory(reserved_memory: usize) -> (warehouse: Self)
        requires
            align_up(reserved_memory as int, crate::datatypes::arenavec::DEFAULT_PAGE_SIZE as int)
                <= usize::MAX,
        ensures
            warehouse.wf(),
            warehouse.stored().len() == 0,
    {
        Self { storage: ArenaVec::with_reserved_memory(reserved_memory) }
    }

    /// Get an instance of `T` from the [`Warehouse`], or create a new
    /// instance of `T` if the [`Warehouse`] is empty. The instance will be
    /// wrapped in a [`WarehouseValue`], which gives it back with
    /// [`WarehouseValue::give_back`].
    pub fn get_instance(&mut self) -> (value: WarehouseValue<T>)
        requires
            old(self).wf(),
        ensures
            final(self).wf(),
            old(self).stored().len() > 0 ==> value.spec_val() == old(self).stored()[0] && final(self).stored() == old(self).stored().remove(0),
            old(self).stored().len() == 0 ==> final(self).stored() == old(self).stored()
                && call_ensures(T::default, (), value.spec_val()),
    {
        WarehouseValue { val: self.take_instance() }
    }

    /// Take an instance of `T` from the [`Warehouse`], or create a new
    /// instance of `T` if the [`Warehouse`] is empty. The caller is
    /// responsible for returning the instance to the [`Warehouse`].
    pub fn take_instance(&mut self) -> (val: T)
        requires
            old(self).wf(),
        ensures
            final(self).wf(),
            old(self).stored().len() > 0 ==> val == old(self).stored()[0] && final(self).stored()
                == old(self).stored().remove(0),
            old(self).stored().len() == 0 ==> final(self).stored() == old(self).stored()
                && call_ensures(T::default, (), val),
    {
        match self.storage.remove(0) {
            Some(val) => val,
            None => T::default(),
        }
    }

    /// Return a taken instance of `T` to the [`Warehouse`], which resets it
    /// and puts it behind the instances in store: the last instance in
    /// store is then what the reset made of `val`. The warehouse must have
    /// room for it.
    pub fn return_instance(&mut self, val: T)
        requires
            old(self).wf(),
            old(self).has_room(),
        ensures
            final(self).wf(),
            final(self).stored().len() == old(self).stored().len() + 1,
            final(self).stored().take(old(self).stored().len() as int) == old(self).stored(),
            exists|inner: &mut T|
                *inner == val && *final(inner) == final(self).stored().last() && #[trigger] call_ensures(
                    T::reset,
                    (inner,),
                    (),
                ),
    {
        let mut val = val;
        val.reset();
        self.storage.push(val);
        proof {
            assert(self.storage@.take(old(self).storage@.len() as int) =~= old(self).storage@);
        }
    }
}

/// A wrapper type returned from [`Warehouse::get_instance`].
pub struct WarehouseValue<T: Default + Reset> {
    val: T,
}

impl<T: Default + Reset> WarehouseValue<T> {
    /// The instance in the wrapper.
    pub closed spec fn spec_val(&self) -> T {
        self.val
    }

    /// The instance in the wrapper.
    pub fn as_ref(&self) -> (val: &T)
        ensures
            *val == self.spec_val(),
    {
        &self.val
    }

    /// The instance in the wrapper, for change.
    pub fn as_mut(&mut self) -> (val: &mut T)
        ensures
            *val == old(self).spec_val(),
            *final(val) == final(self).spec_val(),
    {
        &mut self.val
    }

    /// Returns the instance to `warehouse`, which must have room for it.
    pub fn give_back(self, warehouse: &mut Warehouse<T>)
        requires
            old(warehouse).wf(),
            old(warehouse).has_room(),
        ensures
            final(warehouse).wf(),
            final(warehouse).stored().len() == old(warehouse).stored().len() + 1,
            final(warehouse).stored().take(old(warehouse).stored().len() as int) == old(warehouse).stored(),
            exists|inner: &mut T|
                *inner == self.spec_val() && *final(inner) == final(warehouse).stored().last()
                    && #[trigger] call_ensures(T::reset, (inner,), ()),
    {
        warehouse.return_instance(self.val);
    }
}

} // verus!
